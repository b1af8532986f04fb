//! Record identifiers: 128-bit values with version-4 random-identifier
//! semantics, rendered in the canonical hyphenated hexadecimal form and
//! parsed from any form the identifier crate's parser accepts — bare,
//! braced, or URN. Only the random draw itself is delegated to the
//! identifier crate; the textual forms are this crate's verified logic.

use vstd::prelude::*;
use vstd::string::*;

verus! {

/// Whether `c` is a hexadecimal digit, either case.
pub open spec fn is_hex(c: char) -> bool {
    48 <= c as int <= 57 || 97 <= c as int <= 102 || 65 <= c as int <= 70
}

/// The numeric value of the hexadecimal digit `c`.
pub open spec fn hex_val(c: char) -> int {
    if 48 <= c as int <= 57 {
        c as int - 48
    } else if 97 <= c as int <= 102 {
        c as int - 87
    } else {
        c as int - 55
    }
}

/// The lowercase hexadecimal digit character for `0 <= d <= 15`.
pub open spec fn hex_char(d: int) -> char {
    if d == 0 {
        '0'
    } else if d == 1 {
        '1'
    } else if d == 2 {
        '2'
    } else if d == 3 {
        '3'
    } else if d == 4 {
        '4'
    } else if d == 5 {
        '5'
    } else if d == 6 {
        '6'
    } else if d == 7 {
        '7'
    } else if d == 8 {
        '8'
    } else if d == 9 {
        '9'
    } else if d == 10 {
        'a'
    } else if d == 11 {
        'b'
    } else if d == 12 {
        'c'
    } else if d == 13 {
        'd'
    } else if d == 14 {
        'e'
    } else {
        'f'
    }
}

/// Whether every character of `s` is a hexadecimal digit.
pub open spec fn all_hex(s: Seq<char>) -> bool {
    forall|i: int| 0 <= i < s.len() ==> is_hex(s[i])
}

/// The value of the hexadecimal digit string `s`, most significant first.
pub open spec fn hex_seq_val(s: Seq<char>) -> int
    decreases s.len(),
{
    if s.len() == 0 {
        0
    } else {
        hex_seq_val(s.subrange(0, s.len() - 1)) * 16 + hex_val(s[s.len() - 1])
    }
}

/// Sixteen to the power `n`.
pub open spec fn pow16(n: nat) -> int
    decreases n,
{
    if n == 0 {
        1
    } else {
        16 * pow16((n - 1) as nat)
    }
}

/// The lowercase hexadecimal rendering of `v`, `width` digits wide.
pub open spec fn hex_fixed(v: int, width: nat) -> Seq<char>
    decreases width,
{
    if width == 0 {
        Seq::empty()
    } else {
        hex_fixed(v / 16, (width - 1) as nat).push(hex_char(v % 16))
    }
}

pub proof fn lemma_hex_fixed_len(v: int, width: nat)
    ensures
        hex_fixed(v, width).len() == width,
        all_hex(hex_fixed(v, width)),
    decreases width,
{
    if width > 0 {
        lemma_hex_fixed_len(v / 16, (width - 1) as nat);
        let s = hex_fixed(v, width);
        assert forall|i: int| 0 <= i < s.len() implies is_hex(s[i]) by {
            if i < s.len() - 1 {
                assert(s[i] == hex_fixed(v / 16, (width - 1) as nat)[i]);
            } else {
                assert(s[i] == hex_char(v % 16));
            }
        }
    }
}

pub proof fn lemma_hex_fixed_val(v: int, width: nat)
    requires
        0 <= v < pow16(width),
    ensures
        hex_seq_val(hex_fixed(v, width)) == v,
    decreases width,
{
    if width > 0 {
        assert(pow16(width) == 16 * pow16((width - 1) as nat));
        lemma_hex_fixed_val(v / 16, (width - 1) as nat);
        let s = hex_fixed(v, width);
        lemma_hex_fixed_len(v / 16, (width - 1) as nat);
        assert(s.subrange(0, s.len() - 1) =~= hex_fixed(v / 16, (width - 1) as nat));
        assert(hex_val(hex_char(v % 16)) == v % 16);
    }
}

pub proof fn lemma_hex_seq_val_append(a: Seq<char>, b: Seq<char>)
    ensures
        hex_seq_val(a + b) == hex_seq_val(a) * pow16(b.len()) + hex_seq_val(b),
    decreases b.len(),
{
    if b.len() == 0 {
        assert(a + b =~= a);
    } else {
        let br = b.subrange(0, b.len() - 1);
        lemma_hex_seq_val_append(a, br);
        let u = a + b;
        assert(u.subrange(0, u.len() - 1) =~= a + br);
        assert(u[u.len() - 1] == b[b.len() - 1]);
        assert(pow16(b.len()) == 16 * pow16(br.len()));
        assert(hex_seq_val(a + b) == (hex_seq_val(a) * pow16(br.len()) + hex_seq_val(br)) * 16
            + hex_val(b[b.len() - 1])) by {
            assert(hex_seq_val(u) == hex_seq_val(u.subrange(0, u.len() - 1)) * 16 + hex_val(
                u[u.len() - 1],
            ));
        }
        assert((hex_seq_val(a) * pow16(br.len())) * 16 == hex_seq_val(a) * (16 * pow16(br.len())))
            by (nonlinear_arith);
    }
}

/// The five digit groups of the canonical rendering: the high 32, then 16,
/// 16, 16, and the low 48 bits of the value.
pub open spec fn uuid_group(v: u128, k: int) -> int {
    let hi = v as int / 0x1_0000_0000_0000_0000;
    let lo = v as int % 0x1_0000_0000_0000_0000;
    if k == 1 {
        hi / 0x1_0000_0000
    } else if k == 2 {
        (hi % 0x1_0000_0000) / 0x1_0000
    } else if k == 3 {
        hi % 0x1_0000
    } else if k == 4 {
        lo / 0x1_0000_0000_0000
    } else {
        lo % 0x1_0000_0000_0000
    }
}

/// The canonical rendering of a 128-bit identifier: five lowercase
/// hexadecimal groups of 8, 4, 4, 4 and 12 digits, separated by hyphens.
pub open spec fn uuid_rendered(v: u128) -> Seq<char> {
    hex_fixed(uuid_group(v, 1), 8) + seq!['-'] + hex_fixed(uuid_group(v, 2), 4) + seq!['-']
        + hex_fixed(uuid_group(v, 3), 4) + seq!['-'] + hex_fixed(uuid_group(v, 4), 4) + seq!['-']
        + hex_fixed(uuid_group(v, 5), 12)
}

/// The value a bare textual identifier denotes: the canonical hyphenated
/// form or the plain 32-digit form, in either letter case.
pub open spec fn uuid_bare(s: Seq<char>) -> Option<u128> {
    if s.len() == 36 && s[8] == '-' && s[13] == '-' && s[18] == '-' && s[23] == '-' {
        let d = s.subrange(0, 8) + s.subrange(9, 13) + s.subrange(14, 18) + s.subrange(19, 23)
            + s.subrange(24, 36);
        if all_hex(d) {
            Some(hex_seq_val(d) as u128)
        } else {
            None
        }
    } else if s.len() == 32 {
        if all_hex(s) {
            Some(hex_seq_val(s) as u128)
        } else {
            None
        }
    } else {
        None
    }
}

/// Whether `s` begins with the nine characters `urn:uuid:`, the letters in
/// either case.
pub open spec fn has_urn_prefix(s: Seq<char>) -> bool {
    s.len() >= 9 && (s[0] == 'u' || s[0] == 'U') && (s[1] == 'r' || s[1] == 'R') && (s[2] == 'n'
        || s[2] == 'N') && s[3] == ':' && (s[4] == 'u' || s[4] == 'U') && (s[5] == 'u' || s[5]
        == 'U') && (s[6] == 'i' || s[6] == 'I') && (s[7] == 'd' || s[7] == 'D') && s[8] == ':'
}

/// The value a textual identifier denotes: a bare identifier, a braced one
/// (`{` and `}` around the hyphenated form), or a URN (the `urn:uuid:`
/// prefix before the hyphenated form); anything else denotes nothing.
pub open spec fn uuid_parsed(s: Seq<char>) -> Option<u128> {
    if s.len() == 38 && s[0] == '{' && s[37] == '}' {
        uuid_bare(s.subrange(1, 37))
    } else if s.len() == 45 && has_urn_prefix(s) {
        uuid_bare(s.subrange(9, 45))
    } else {
        uuid_bare(s)
    }
}

/// Whether `v` carries the fixed bits of a version-4 random identifier:
/// version nibble 4 and the standard variant bits.
pub open spec fn is_v4(v: u128) -> bool {
    ((v >> 76) & 0xf) == 4 && ((v >> 62) & 3) == 2
}

/// A record's unique identifier: a 128-bit value with version-4
/// random-identifier semantics, held most significant byte first.
#[derive(Debug, Clone, Copy, PartialEq, Eq, Structural)]
pub struct RecordId {
    pub value: u128,
}

/// Relies on `uuid::Uuid::new_v4` and `uuid::Uuid::as_u128`: a fresh random
/// identifier with version nibble 4 and the standard variant bits set, all
/// other bits drawn from the process random source, read out big-endian.
#[verifier::external_body]
fn fresh_u128() -> (r: u128)
    ensures
        ((r >> 76) & 0xf) == 4,
        ((r >> 62) & 3) == 2,
{
    uuid::Uuid::new_v4().as_u128()
}

pub(crate) fn hex_str(d: u128) -> (r: &'static str)
    requires
        d < 16,
    ensures
        r@ == seq![hex_char(d as int)],
{
    let r: &'static str = if d == 0 {
        "0"
    } else if d == 1 {
        "1"
    } else if d == 2 {
        "2"
    } else if d == 3 {
        "3"
    } else if d == 4 {
        "4"
    } else if d == 5 {
        "5"
    } else if d == 6 {
        "6"
    } else if d == 7 {
        "7"
    } else if d == 8 {
        "8"
    } else if d == 9 {
        "9"
    } else if d == 10 {
        "a"
    } else if d == 11 {
        "b"
    } else if d == 12 {
        "c"
    } else if d == 13 {
        "d"
    } else if d == 14 {
        "e"
    } else {
        "f"
    };
    proof {
        reveal_strlit("0");
        reveal_strlit("1");
        reveal_strlit("2");
        reveal_strlit("3");
        reveal_strlit("4");
        reveal_strlit("5");
        reveal_strlit("6");
        reveal_strlit("7");
        reveal_strlit("8");
        reveal_strlit("9");
        reveal_strlit("a");
        reveal_strlit("b");
        reveal_strlit("c");
        reveal_strlit("d");
        reveal_strlit("e");
        reveal_strlit("f");
        assert(r@ =~= seq![hex_char(d as int)]);
    }
    r
}

fn push_hex_fixed(v: u128, width: u32, out: &mut String)
    ensures
        final(out)@ == old(out)@ + hex_fixed(v as int, width as nat),
    decreases width,
{
    if width > 0 {
        push_hex_fixed(v / 16, width - 1, out);
        out.append(hex_str(v % 16));
        proof {
            assert(old(out)@ + hex_fixed((v / 16) as int, (width - 1) as nat) + seq![
                hex_char((v % 16) as int),
            ] =~= old(out)@ + hex_fixed(v as int, width as nat));
        }
    } else {
        proof {
            assert(old(out)@ + hex_fixed(v as int, 0) =~= old(out)@);
        }
    }
}

impl RecordId {
    /// Draws a fresh random identifier; its version and variant bits are
    /// the fixed version-4 ones.
    pub fn fresh() -> (r: RecordId)
        ensures
            is_v4(r.value),
    {
        RecordId { value: fresh_u128() }
    }

    /// Renders the identifier canonically: lowercase hexadecimal groups of
    /// 8, 4, 4, 4 and 12 digits, separated by hyphens.
    pub fn render(&self) -> (r: String)
        ensures
            r@ == uuid_rendered(self.value),
    {
        let v = self.value;
        let hi: u128 = v / 0x1_0000_0000_0000_0000;
        let lo: u128 = v % 0x1_0000_0000_0000_0000;
        let mut out = String::new();
        push_hex_fixed(hi / 0x1_0000_0000, 8, &mut out);
        out.append("-");
        push_hex_fixed((hi % 0x1_0000_0000) / 0x1_0000, 4, &mut out);
        out.append("-");
        push_hex_fixed(hi % 0x1_0000, 4, &mut out);
        out.append("-");
        push_hex_fixed(lo / 0x1_0000_0000_0000, 4, &mut out);
        out.append("-");
        push_hex_fixed(lo % 0x1_0000_0000_0000, 12, &mut out);
        proof {
            reveal_strlit("-");
            assert("-"@ =~= seq!['-']);
            assert(out@ =~= uuid_rendered(self.value));
        }
        out
    }

    /// Parses a bare textual identifier: the canonical hyphenated form or
    /// the plain 32-digit form, in either letter case.
    #[verifier::rlimit(60)]
    fn parse_bare(s: &str) -> (r: Option<RecordId>)
        ensures
            match r {
                Some(id) => uuid_bare(s@) == Some(id.value),
                None => uuid_bare(s@) is None,
            },
    {
        let n: usize = s.unicode_len();
        let hx: String;
        if n == 36 {
            if !(s.get_char(8) == '-' && s.get_char(13) == '-' && s.get_char(18) == '-'
                && s.get_char(23) == '-') {
                return None;
            }
            let mut b = String::new();
            b.append(s.substring_char(0, 8));
            b.append(s.substring_char(9, 13));
            b.append(s.substring_char(14, 18));
            b.append(s.substring_char(19, 23));
            b.append(s.substring_char(24, 36));
            hx = b;
        } else if n == 32 {
            hx = String::from_str(s);
        } else {
            return None;
        }
        let ghost digs = hx@;
        proof {
            assert(digs.len() == 32);
            reveal_with_fuel(pow16, 34);
            assert(pow16(32) == 0x1_0000_0000_0000_0000_0000_0000_0000_0000);
        }
        let mut acc: u128 = 0;
        let mut j: usize = 0;
        while j < 32
            invariant
                0 <= j <= 32,
                digs == hx@,
                digs.len() == 32,
                (if s@.len() == 36 {
                    s@[8] == '-' && s@[13] == '-' && s@[18] == '-' && s@[23] == '-' && digs
                        == s@.subrange(0, 8) + s@.subrange(9, 13) + s@.subrange(14, 18)
                        + s@.subrange(19, 23) + s@.subrange(24, 36)
                } else {
                    s@.len() == 32 && digs == s@
                }),
                all_hex(digs.subrange(0, j as int)),
                acc == hex_seq_val(digs.subrange(0, j as int)),
                acc < pow16(j as nat),
                pow16(32) == 0x1_0000_0000_0000_0000_0000_0000_0000_0000,
            decreases 32 - j,
        {
            let c = hx.as_str().get_char(j);
            let v: u32 = c as u32;
            let d: u128;
            if 48 <= v && v <= 57 {
                d = (v - 48) as u128;
            } else if 97 <= v && v <= 102 {
                d = (v - 87) as u128;
            } else if 65 <= v && v <= 70 {
                d = (v - 55) as u128;
            } else {
                proof {
                    assert(!is_hex(digs[j as int]));
                    if s@.len() == 36 {
                        assert(uuid_bare(s@) is None);
                    } else {
                        assert(uuid_bare(s@) is None);
                    }
                }
                return None;
            }
            proof {
                assert(is_hex(digs[j as int]));
                assert(d == hex_val(digs[j as int]));
                let pre = digs.subrange(0, j + 1);
                assert(pre.subrange(0, pre.len() - 1) =~= digs.subrange(0, j as int));
                assert(pre[pre.len() - 1] == digs[j as int]);
                assert(pow16((j + 1) as nat) == 16 * pow16(j as nat));
                lemma_pow16_mono((j + 1) as nat, 32);
                assert(acc * 16 + d < pow16((j + 1) as nat)) by (nonlinear_arith)
                    requires
                        acc < pow16(j as nat),
                        d < 16,
                        pow16((j + 1) as nat) == 16 * pow16(j as nat),
                ;
            }
            acc = acc * 16 + d;
            j = j + 1;
        }
        proof {
            assert(digs.subrange(0, 32) =~= digs);
            if s@.len() == 36 {
                assert(uuid_bare(s@) == Some(hex_seq_val(digs) as u128));
            } else {
                assert(uuid_bare(s@) == Some(hex_seq_val(digs) as u128));
            }
            assert(hex_seq_val(digs) as u128 == acc);
        }
        Some(RecordId { value: acc })
    }

    /// Parses a textual identifier in any form the identifier crate's
    /// parser accepts: bare (hyphenated or 32-digit), braced, or a
    /// `urn:uuid:` URN, hexadecimal digits and the prefix letters in
    /// either case.
    pub fn parse(s: &str) -> (r: Option<RecordId>)
        ensures
            match r {
                Some(id) => uuid_parsed(s@) == Some(id.value),
                None => uuid_parsed(s@) is None,
            },
    {
        let n: usize = s.unicode_len();
        if n == 38 {
            if s.get_char(0) == '{' && s.get_char(37) == '}' {
                Self::parse_bare(s.substring_char(1, 37))
            } else {
                None
            }
        } else if n == 45 {
            if (s.get_char(0) == 'u' || s.get_char(0) == 'U') && (s.get_char(1) == 'r'
                || s.get_char(1) == 'R') && (s.get_char(2) == 'n' || s.get_char(2) == 'N')
                && s.get_char(3) == ':' && (s.get_char(4) == 'u' || s.get_char(4) == 'U') && (
            s.get_char(5) == 'u' || s.get_char(5) == 'U') && (s.get_char(6) == 'i' || s.get_char(6)
                == 'I') && (s.get_char(7) == 'd' || s.get_char(7) == 'D') && s.get_char(8) == ':' {
                Self::parse_bare(s.substring_char(9, 45))
            } else {
                None
            }
        } else {
            Self::parse_bare(s)
        }
    }
}

proof fn lemma_pow16_mono(a: nat, b: nat)
    requires
        a <= b,
    ensures
        pow16(a) <= pow16(b),
        pow16(a) >= 1,
    decreases b,
{
    if b > 0 {
        if a <= b - 1 {
            lemma_pow16_mono(a, (b - 1) as nat);
        } else {
            lemma_pow16_mono((a - 1) as nat, (b - 1) as nat);
        }
    }
}

/// Law: rendering an identifier and parsing the rendering yields the same
/// identifier back — the canonical form round-trips.
pub proof fn lemma_identifier_round_trip(id: RecordId)
    ensures
        uuid_parsed(uuid_rendered(id.value)) == Some(id.value),
{
    let v = id.value;
    let g1 = uuid_group(v, 1);
    let g2 = uuid_group(v, 2);
    let g3 = uuid_group(v, 3);
    let g4 = uuid_group(v, 4);
    let g5 = uuid_group(v, 5);
    let s = uuid_rendered(v);
    lemma_hex_fixed_len(g1, 8);
    lemma_hex_fixed_len(g2, 4);
    lemma_hex_fixed_len(g3, 4);
    lemma_hex_fixed_len(g4, 4);
    lemma_hex_fixed_len(g5, 12);
    let a1 = hex_fixed(g1, 8);
    let a2 = hex_fixed(g2, 4);
    let a3 = hex_fixed(g3, 4);
    let a4 = hex_fixed(g4, 4);
    let a5 = hex_fixed(g5, 12);
    assert(s.len() == 36);
    assert(s[8] == '-');
    assert(s[13] == '-');
    assert(s[18] == '-');
    assert(s[23] == '-');
    let d = s.subrange(0, 8) + s.subrange(9, 13) + s.subrange(14, 18) + s.subrange(19, 23)
        + s.subrange(24, 36);
    assert(s.subrange(0, 8) =~= a1);
    assert(s.subrange(9, 13) =~= a2);
    assert(s.subrange(14, 18) =~= a3);
    assert(s.subrange(19, 23) =~= a4);
    assert(s.subrange(24, 36) =~= a5);
    assert(all_hex(d)) by {
        assert(d =~= a1 + a2 + a3 + a4 + a5);
    }
    reveal_with_fuel(pow16, 34);
    assert(pow16(8) == 0x1_0000_0000);
    assert(pow16(4) == 0x1_0000);
    assert(pow16(12) == 0x1_0000_0000_0000);
    let hi = v as int / 0x1_0000_0000_0000_0000;
    let lo = v as int % 0x1_0000_0000_0000_0000;
    assert(0 <= hi < 0x1_0000_0000_0000_0000);
    assert(0 <= lo < 0x1_0000_0000_0000_0000);
    assert(0 <= g1 < pow16(8));
    assert(0 <= g2 < pow16(4));
    assert(0 <= g3 < pow16(4));
    assert(0 <= g4 < pow16(4));
    assert(0 <= g5 < pow16(12));
    lemma_hex_fixed_val(g1, 8);
    lemma_hex_fixed_val(g2, 4);
    lemma_hex_fixed_val(g3, 4);
    lemma_hex_fixed_val(g4, 4);
    lemma_hex_fixed_val(g5, 12);
    lemma_hex_seq_val_append(a1, a2);
    lemma_hex_seq_val_append(a1 + a2, a3);
    lemma_hex_seq_val_append(a1 + a2 + a3, a4);
    lemma_hex_seq_val_append(a1 + a2 + a3 + a4, a5);
    assert(d == a1 + a2 + a3 + a4 + a5);
    assert(hex_seq_val(d) == (((g1 * 0x1_0000 + g2) * 0x1_0000 + g3) * 0x1_0000 + g4)
        * 0x1_0000_0000_0000 + g5);
    assert(hi == (g1 * 0x1_0000 + g2) * 0x1_0000 + g3);
    assert(lo == g4 * 0x1_0000_0000_0000 + g5);
    assert(v as int == hi * 0x1_0000_0000_0000_0000 + lo);
    assert(hex_seq_val(d) == v as int) by (nonlinear_arith)
        requires
            hex_seq_val(d) == (((g1 * 0x1_0000 + g2) * 0x1_0000 + g3) * 0x1_0000 + g4)
                * 0x1_0000_0000_0000 + g5,
            hi == (g1 * 0x1_0000 + g2) * 0x1_0000 + g3,
            lo == g4 * 0x1_0000_0000_0000 + g5,
            v as int == hi * 0x1_0000_0000_0000_0000 + lo,
    ;
    assert(hex_seq_val(d) as u128 == v);
}

} // verus!
