//! Verified decimal text: parsing signed 32-bit integers, rendering
//! non-negative integers, and rendering milli-unit quantities either exactly
//! or rounded to two decimal places.

use vstd::prelude::*;
use vstd::string::*;

verus! {

/// Whether `c` is a decimal digit.
pub open spec fn is_digit(c: char) -> bool {
    48 <= c as int <= 57
}

/// The numeric value of the digit `c`.
pub open spec fn digit_val(c: char) -> int {
    c as int - 48
}

/// The digit character for a value `0 <= d <= 9`.
pub open spec fn digit_char(d: int) -> char {
    if d == 0 {
        '0'
    } else if d == 1 {
        '1'
    } else if d == 2 {
        '2'
    } else if d == 3 {
        '3'
    } else if d == 4 {
        '4'
    } else if d == 5 {
        '5'
    } else if d == 6 {
        '6'
    } else if d == 7 {
        '7'
    } else if d == 8 {
        '8'
    } else {
        '9'
    }
}

/// Whether every character of `s` is a decimal digit.
pub open spec fn all_digits(s: Seq<char>) -> bool {
    forall|i: int| 0 <= i < s.len() ==> is_digit(s[i])
}

/// The value of the digit string `s`, most significant digit first.
pub open spec fn dec_val(s: Seq<char>) -> int
    decreases s.len(),
{
    if s.len() == 0 {
        0
    } else {
        dec_val(s.subrange(0, s.len() - 1)) * 10 + digit_val(s[s.len() - 1])
    }
}

/// The mathematical value that a signed decimal integer literal denotes:
/// an optional `+` or `-` sign followed by at least one digit.
pub open spec fn parse_int_seq(s: Seq<char>) -> Option<int> {
    let digs = if s.len() > 0 && (s[0] == '+' || s[0] == '-') {
        s.subrange(1, s.len() as int)
    } else {
        s
    };
    if digs.len() == 0 || !all_digits(digs) {
        None
    } else if s.len() > 0 && s[0] == '-' {
        Some(-dec_val(digs))
    } else {
        Some(dec_val(digs))
    }
}

/// `parse_int_seq` restricted to the range of `i32`: out-of-range values
/// are rejected, as the standard integer parser rejects them.
pub open spec fn parse_i32_seq(s: Seq<char>) -> Option<int> {
    match parse_int_seq(s) {
        Some(v) => if -0x8000_0000 <= v <= 0x7fff_ffff {
            Some(v)
        } else {
            None
        },
        None => None,
    }
}

/// Ten to the power `n`.
pub open spec fn pow10(n: nat) -> int
    decreases n,
{
    if n == 0 {
        1
    } else {
        10 * pow10((n - 1) as nat)
    }
}

pub proof fn lemma_pow10_mono(a: nat, b: nat)
    requires
        a <= b,
    ensures
        pow10(a) <= pow10(b),
        pow10(a) >= 1,
    decreases b,
{
    if b > 0 {
        if a <= b - 1 {
            lemma_pow10_mono(a, (b - 1) as nat);
        } else {
            lemma_pow10_mono((a - 1) as nat, (b - 1) as nat);
        }
    }
}

pub proof fn lemma_dec_val_bound(s: Seq<char>)
    requires
        all_digits(s),
    ensures
        0 <= dec_val(s) < pow10(s.len()),
    decreases s.len(),
{
    if s.len() > 0 {
        let rest = s.subrange(0, s.len() - 1);
        assert(all_digits(rest));
        lemma_dec_val_bound(rest);
        assert(is_digit(s[s.len() - 1]));
    }
}

pub proof fn lemma_dec_val_lower(s: Seq<char>)
    requires
        all_digits(s),
        s.len() > 0,
        digit_val(s[0]) >= 1,
    ensures
        dec_val(s) >= pow10((s.len() - 1) as nat),
    decreases s.len(),
{
    if s.len() == 1 {
        assert(s.subrange(0, 0).len() == 0);
        assert(dec_val(s.subrange(0, 0)) == 0);
        assert(dec_val(s) == digit_val(s[0]));
        assert(pow10(0) == 1);
    } else {
        let rest = s.subrange(0, s.len() - 1);
        assert(all_digits(rest));
        assert(rest[0] == s[0]);
        lemma_dec_val_lower(rest);
        assert(is_digit(s[s.len() - 1]));
        assert(pow10((s.len() - 1) as nat) == 10 * pow10((s.len() - 2) as nat));
        assert(dec_val(rest) >= pow10((s.len() - 2) as nat));
        assert(dec_val(rest) * 10 >= pow10((s.len() - 2) as nat) * 10);
        assert(digit_val(s[s.len() - 1]) >= 0);
    }
}

pub proof fn lemma_dec_val_strip_zeros(s: Seq<char>, k: int)
    requires
        0 <= k <= s.len(),
        forall|t: int| 0 <= t < k ==> digit_val(s[t]) == 0,
    ensures
        dec_val(s) == dec_val(s.subrange(k, s.len() as int)),
    decreases s.len(),
{
    if s.len() == k {
        if s.len() > 0 {
            let rest = s.subrange(0, s.len() - 1);
            lemma_dec_val_strip_zeros(rest, k - 1);
            assert(rest.subrange(k - 1, rest.len() as int) =~= Seq::<char>::empty());
            assert(digit_val(s[s.len() - 1]) == 0);
        }
        assert(s.subrange(k, s.len() as int) =~= Seq::<char>::empty());
    } else {
        let rest = s.subrange(0, s.len() - 1);
        lemma_dec_val_strip_zeros(rest, k);
        let tail = s.subrange(k, s.len() as int);
        assert(rest.subrange(k, rest.len() as int) =~= tail.subrange(0, tail.len() - 1));
        assert(tail[tail.len() - 1] == s[s.len() - 1]);
    }
}

fn digit(c: char) -> (r: bool)
    ensures
        r == is_digit(c),
{
    let v: u32 = c as u32;
    48 <= v && v <= 57
}

/// Parses `s` as a signed decimal 32-bit integer, as the standard library
/// does: an optional sign, then digits; out-of-range values are rejected.
pub fn parse_i32(s: &str) -> (r: Option<i32>)
    ensures
        match r {
            Some(v) => parse_i32_seq(s@) == Some(v as int),
            None => parse_i32_seq(s@) is None,
        },
{
    let n: usize = s.unicode_len();
    let mut idx: usize = 0;
    let mut neg: bool = false;
    if n > 0 {
        let c0 = s.get_char(0);
        if c0 == '-' {
            neg = true;
            idx = 1;
        } else if c0 == '+' {
            idx = 1;
        }
    }
    if idx >= n {
        return None;
    }
    let ghost digs = if idx == 1 {
        s@.subrange(1, n as int)
    } else {
        s@
    };
    proof {
        if idx == 0 {
            assert(digs =~= s@.subrange(0, n as int));
        }
    }
    let mut i: usize = idx;
    while i < n
        invariant
            n == s@.len(),
            idx <= i <= n,
            idx <= 1,
            digs == (if idx == 1 {
                s@.subrange(1, n as int)
            } else {
                s@
            }),
            (idx == 1) <==> (n > 0 && (s@[0] == '+' || s@[0] == '-')),
            forall|t: int| idx <= t < i ==> is_digit(s@[t]),
        decreases n - i,
    {
        if !digit(s.get_char(i)) {
            proof {
                assert(digs[i - idx] == s@[i as int]);
                assert(!all_digits(digs));
            }
            return None;
        }
        i = i + 1;
    }
    proof {
        assert forall|t: int| 0 <= t < digs.len() implies is_digit(digs[t]) by {
            assert(digs[t] == s@[t + idx]);
        }
    }
    let mut z: usize = idx;
    while z < n && s.get_char(z) as u32 == 48
        invariant
            n == s@.len(),
            idx <= z <= n,
            forall|t: int| idx <= t < z ==> digit_val(s@[t]) == 0,
        decreases n - z,
    {
        z = z + 1;
    }
    proof {
        lemma_dec_val_strip_zeros(digs, z - idx);
        assert(digs.subrange(z - idx, digs.len() as int) =~= s@.subrange(z as int, n as int));
    }
    let ghost stripped = s@.subrange(z as int, n as int);
    proof {
        assert(all_digits(stripped));
        lemma_dec_val_bound(stripped);
    }
    if n - z > 10 {
        proof {
            assert(stripped[0] == s@[z as int]);
            assert(is_digit(stripped[0]));
            assert(digit_val(stripped[0]) >= 1);
            lemma_dec_val_lower(stripped);
            lemma_pow10_mono(10, (stripped.len() - 1) as nat);
            reveal_with_fuel(pow10, 11);
            assert(pow10(10) == 10_000_000_000);
            assert(dec_val(digs) >= 10_000_000_000);
        }
        return None;
    }
    let mut acc: i64 = 0;
    let mut j: usize = z;
    while j < n
        invariant
            n == s@.len(),
            z <= j <= n,
            n - z <= 10,
            stripped == s@.subrange(z as int, n as int),
            all_digits(stripped),
            acc == dec_val(s@.subrange(z as int, j as int)),
            0 <= acc < pow10((j - z) as nat),
        decreases n - j,
    {
        let c = s.get_char(j);
        proof {
            assert(stripped[j - z] == s@[j as int]);
            assert(is_digit(s@[j as int]));
            lemma_pow10_mono((j - z) as nat, 9);
            reveal_with_fuel(pow10, 11);
            assert(pow10(9) == 1_000_000_000);
            let pre = s@.subrange(z as int, j + 1);
            assert(pre.subrange(0, pre.len() - 1) =~= s@.subrange(z as int, j as int));
            assert(pre[pre.len() - 1] == s@[j as int]);
        }
        let d: u32 = c as u32;
        acc = acc * 10 + ((d - 48) as i64);
        j = j + 1;
    }
    proof {
        assert(s@.subrange(z as int, n as int) =~= stripped);
        assert(acc == dec_val(digs));
    }
    if neg {
        if acc > 2147483648 {
            return None;
        }
        let v: i64 = -acc;
        proof {
            assert(parse_int_seq(s@) == Some(-dec_val(digs)));
        }
        Some(v as i32)
    } else {
        if acc > 2147483647 {
            return None;
        }
        proof {
            if idx == 1 {
                assert(s@[0] == '+');
            }
            assert(parse_int_seq(s@) == Some(dec_val(digs)));
        }
        Some(acc as i32)
    }
}

/// The decimal digit string of `n >= 0`, without sign or leading zeros
/// (the single digit `0` for zero).
pub open spec fn dec_digits(n: int) -> Seq<char>
    decreases n,
{
    if n < 10 {
        seq![digit_char(n)]
    } else {
        dec_digits(n / 10).push(digit_char(n % 10))
    }
}

/// The digit character for `d`, saturating at `'9'` as `digit_char` does.
pub fn digit_str(d: u64) -> (r: &'static str)
    ensures
        r@ == seq![digit_char(d as int)],
{
    let r: &'static str = if d == 0 {
        "0"
    } else if d == 1 {
        "1"
    } else if d == 2 {
        "2"
    } else if d == 3 {
        "3"
    } else if d == 4 {
        "4"
    } else if d == 5 {
        "5"
    } else if d == 6 {
        "6"
    } else if d == 7 {
        "7"
    } else if d == 8 {
        "8"
    } else {
        "9"
    };
    proof {
        reveal_strlit("0");
        reveal_strlit("1");
        reveal_strlit("2");
        reveal_strlit("3");
        reveal_strlit("4");
        reveal_strlit("5");
        reveal_strlit("6");
        reveal_strlit("7");
        reveal_strlit("8");
        reveal_strlit("9");
        assert(r@ =~= seq![digit_char(d as int)]);
    }
    r
}

/// Appends the decimal rendering of `v` to `out`.
pub fn push_decimal(v: u64, out: &mut String)
    ensures
        final(out)@ == old(out)@ + dec_digits(v as int),
    decreases v,
{
    if v < 10 {
        out.append(digit_str(v));
    } else {
        push_decimal(v / 10, out);
        out.append(digit_str(v % 10));
        proof {
            assert(old(out)@ + dec_digits((v / 10) as int) + seq![digit_char((v % 10) as int)]
                =~= old(out)@ + dec_digits(v as int));
        }
    }
}

/// The decimal literal of the signed integer `v`.
pub open spec fn int_literal(v: int) -> Seq<char> {
    if v < 0 {
        seq!['-'] + dec_digits(-v)
    } else {
        dec_digits(v)
    }
}

/// Appends the decimal literal of `v` to `out`.
pub fn push_int(v: i64, out: &mut String)
    ensures
        final(out)@ == old(out)@ + int_literal(v as int),
{
    if v < 0 {
        out.append("-");
        proof {
            reveal_strlit("-");
            assert("-"@ =~= seq!['-']);
        }
        push_decimal((-(v as i128)) as u64, out);
        proof {
            assert(out@ =~= old(out)@ + int_literal(v as int));
        }
    } else {
        push_decimal(v as u64, out);
    }
}

/// The magnitude of `m`.
pub open spec fn abs_val(m: int) -> int {
    if m < 0 {
        -m
    } else {
        m
    }
}

/// The fractional part of an exact milli-unit rendering: empty when the
/// thousandths are zero, otherwise a point and up to three digits with
/// trailing zeros removed.
pub open spec fn milli_frac(f: int) -> Seq<char> {
    let d1 = f / 100;
    let d2 = (f / 10) % 10;
    let d3 = f % 10;
    if f == 0 {
        Seq::empty()
    } else if d3 == 0 && d2 == 0 {
        seq!['.', digit_char(d1)]
    } else if d3 == 0 {
        seq!['.', digit_char(d1), digit_char(d2)]
    } else {
        seq!['.', digit_char(d1), digit_char(d2), digit_char(d3)]
    }
}

/// The exact decimal rendering of the quantity `m` milli-units: sign,
/// integer part, and shortest exact fractional part.
pub open spec fn milli_decimal(m: int) -> Seq<char> {
    let a = abs_val(m);
    let sign: Seq<char> = if m < 0 {
        seq!['-']
    } else {
        Seq::empty()
    };
    sign + dec_digits(a / 1000) + milli_frac(a % 1000)
}

/// Appends the exact decimal rendering of `m` milli-units to `out`.
pub fn push_milli(m: i64, out: &mut String)
    ensures
        final(out)@ == old(out)@ + milli_decimal(m as int),
{
    let a: u64 = if m < 0 {
        out.append("-");
        proof {
            reveal_strlit("-");
            assert("-"@ =~= seq!['-']);
        }
        (-(m as i128)) as u64
    } else {
        m as u64
    };
    let ghost mid = out@;
    push_decimal(a / 1000, out);
    let f: u64 = a % 1000;
    if f != 0 {
        out.append(".");
        proof {
            reveal_strlit(".");
        }
        let d1: u64 = f / 100;
        let d2: u64 = (f / 10) % 10;
        let d3: u64 = f % 10;
        out.append(digit_str(d1));
        if d2 != 0 || d3 != 0 {
            out.append(digit_str(d2));
            if d3 != 0 {
                out.append(digit_str(d3));
            }
        }
    }
    proof {
        assert(out@ =~= old(out)@ + milli_decimal(m as int));
    }
}

/// `m` milli-units rounded to centi-units, half to even, for `m >= 0`.
pub open spec fn centi_round(m: int) -> int {
    let q = m / 10;
    let r = m % 10;
    if r < 5 {
        q
    } else if r > 5 {
        q + 1
    } else if q % 2 == 0 {
        q
    } else {
        q + 1
    }
}

/// The rendering of `m` milli-units with exactly two decimal places,
/// rounded half to even as the standard float formatter rounds.
pub open spec fn milli_fixed2(m: int) -> Seq<char> {
    let c = centi_round(abs_val(m));
    let sign: Seq<char> = if m < 0 {
        seq!['-']
    } else {
        Seq::empty()
    };
    sign + dec_digits(c / 100) + seq!['.', digit_char((c / 10) % 10), digit_char(c % 10)]
}

/// Appends the two-decimal rendering of `m` milli-units to `out`.
pub fn push_milli_fixed2(m: i64, out: &mut String)
    ensures
        final(out)@ == old(out)@ + milli_fixed2(m as int),
{
    let a: u64 = if m < 0 {
        out.append("-");
        proof {
            reveal_strlit("-");
            assert("-"@ =~= seq!['-']);
        }
        (-(m as i128)) as u64
    } else {
        m as u64
    };
    let q: u64 = a / 10;
    let r: u64 = a % 10;
    let c: u64 = if r < 5 {
        q
    } else if r > 5 {
        q + 1
    } else if q % 2 == 0 {
        q
    } else {
        q + 1
    };
    push_decimal(c / 100, out);
    out.append(".");
    proof {
        reveal_strlit(".");
    }
    out.append(digit_str((c / 10) % 10));
    out.append(digit_str(c % 10));
    proof {
        assert(out@ =~= old(out)@ + milli_fixed2(m as int));
    }
}

} // verus!
