//! JSON string framing for the wire bodies: escaping a text into a JSON
//! string literal. The escapes are the two mandatory ones, short forms for
//! the common control characters, and `\u00XX` for the rest.

use vstd::prelude::*;
use vstd::string::*;
use crate::ident::hex_char;
use crate::ident::hex_str;

verus! {

/// The escape of one character inside a JSON string literal.
pub open spec fn escaped_char(c: char) -> Seq<char> {
    if c == '"' {
        seq!['\\', '"']
    } else if c == '\\' {
        seq!['\\', '\\']
    } else if c == '\n' {
        seq!['\\', 'n']
    } else if c == '\r' {
        seq!['\\', 'r']
    } else if c == '\t' {
        seq!['\\', 't']
    } else if (c as int) < 32 {
        seq!['\\', 'u', '0', '0', hex_char(c as int / 16), hex_char(c as int % 16)]
    } else {
        seq![c]
    }
}

/// `s` with every character escaped for a JSON string literal.
pub open spec fn escape_json(s: Seq<char>) -> Seq<char>
    decreases s.len(),
{
    if s.len() == 0 {
        Seq::empty()
    } else {
        escape_json(s.subrange(0, s.len() - 1)) + escaped_char(s[s.len() - 1])
    }
}

/// The JSON string literal denoting `s`: quotes around the escaped text.
pub open spec fn json_string(s: Seq<char>) -> Seq<char> {
    seq!['"'] + escape_json(s) + seq!['"']
}

/// Appends the JSON string literal denoting `s` to `out`.
pub fn push_json_string(s: &str, out: &mut String)
    ensures
        final(out)@ == old(out)@ + json_string(s@),
{
    out.append("\"");
    proof {
        reveal_strlit("\"");
        assert("\""@ =~= seq!['"']);
    }
    let ghost base = out@;
    let n: usize = s.unicode_len();
    let mut i: usize = 0;
    proof {
        assert(s@.subrange(0, 0) =~= Seq::<char>::empty());
        assert(base + escape_json(s@.subrange(0, 0)) =~= base);
    }
    while i < n
        invariant
            n == s@.len(),
            0 <= i <= n,
            out@ == base + escape_json(s@.subrange(0, i as int)),
        decreases n - i,
    {
        let c = s.get_char(i);
        let v: u32 = c as u32;
        if c == '"' {
            out.append("\\\"");
            proof {
                reveal_strlit("\\\"");
                assert("\\\""@ =~= escaped_char(c));
            }
        } else if c == '\\' {
            out.append("\\\\");
            proof {
                reveal_strlit("\\\\");
                assert("\\\\"@ =~= escaped_char(c));
            }
        } else if c == '\n' {
            out.append("\\n");
            proof {
                reveal_strlit("\\n");
                assert("\\n"@ =~= escaped_char(c));
            }
        } else if c == '\r' {
            out.append("\\r");
            proof {
                reveal_strlit("\\r");
                assert("\\r"@ =~= escaped_char(c));
            }
        } else if c == '\t' {
            out.append("\\t");
            proof {
                reveal_strlit("\\t");
                assert("\\t"@ =~= escaped_char(c));
            }
        } else if v < 32 {
            out.append("\\u00");
            out.append(hex_str((v / 16) as u128));
            out.append(hex_str((v % 16) as u128));
            proof {
                reveal_strlit("\\u00");
                assert("\\u00"@ + seq![hex_char(c as int / 16)] + seq![hex_char(c as int % 16)]
                    =~= escaped_char(c));
            }
        } else {
            out.append(s.substring_char(i, i + 1));
            proof {
                assert(s@.subrange(i as int, i + 1) =~= escaped_char(c));
            }
        }
        proof {
            assert(escape_json(s@.subrange(0, i + 1)) == escape_json(
                s@.subrange(0, i + 1).subrange(0, i as int),
            ) + escaped_char(s@[i as int]));
            assert(s@.subrange(0, i + 1).subrange(0, i as int) =~= s@.subrange(0, i as int));
            assert(out@ =~= base + escape_json(s@.subrange(0, i + 1)));
        }
        i = i + 1;
    }
    out.append("\"");
    proof {
        assert(s@.subrange(0, n as int) =~= s@);
        assert(out@ =~= old(out)@ + json_string(s@));
    }
}

} // verus!
