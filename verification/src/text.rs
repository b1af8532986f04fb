//! Verified text utilities: substring search, whitespace trimming, path
//! segments, and prefix tests, each specified over `Seq<char>` views.

use vstd::prelude::*;
use vstd::string::*;

verus! {

/// Whether `pat` occurs in `s` starting at position `i`.
pub open spec fn occurs_at(s: Seq<char>, pat: Seq<char>, i: int) -> bool {
    0 <= i && i + pat.len() <= s.len() && s.subrange(i, i + pat.len()) == pat
}

/// Whether `pat` occurs anywhere in `s`.
pub open spec fn contains_seq(s: Seq<char>, pat: Seq<char>) -> bool {
    exists|i: int| occurs_at(s, pat, i)
}

/// The least position at or after `i` at which `pat` occurs in `s`, if any.
pub open spec fn find_at(s: Seq<char>, pat: Seq<char>, i: int) -> Option<int>
    decreases s.len() - i,
{
    if pat.len() < 1 || i + pat.len() > s.len() {
        None
    } else if occurs_at(s, pat, i) {
        Some(i)
    } else {
        find_at(s, pat, i + 1)
    }
}

pub proof fn lemma_find_at_none(s: Seq<char>, pat: Seq<char>, i: int)
    requires
        pat.len() >= 1,
        find_at(s, pat, i) is None,
    ensures
        forall|j: int| j >= i ==> !occurs_at(s, pat, j),
    decreases s.len() - i,
{
    if i + pat.len() > s.len() {
        assert forall|j: int| j >= i implies !occurs_at(s, pat, j) by {
            assert(j + pat.len() > s.len());
        }
    } else {
        lemma_find_at_none(s, pat, i + 1);
    }
}

pub proof fn lemma_find_at_some(s: Seq<char>, pat: Seq<char>, i: int, j: int)
    requires
        pat.len() >= 1,
        find_at(s, pat, i) == Some(j),
    ensures
        i <= j,
        occurs_at(s, pat, j),
        forall|k: int| i <= k < j ==> !occurs_at(s, pat, k),
    decreases s.len() - i,
{
    if pat.len() < 1 || i + pat.len() > s.len() {
    } else if occurs_at(s, pat, i) {
    } else {
        lemma_find_at_some(s, pat, i + 1, j);
    }
}

/// Least index at or after `from` where `pat` occurs in `s`.
pub fn find_from(s: &str, pat: &str, from: usize) -> (r: Option<usize>)
    requires
        from <= s@.len(),
        pat@.len() >= 1,
    ensures
        match r {
            Some(j) => find_at(s@, pat@, from as int) == Some(j as int),
            None => find_at(s@, pat@, from as int) is None,
        },
{
    let n: usize = s.unicode_len();
    let m: usize = pat.unicode_len();
    if m > n {
        return None;
    }
    let mut i: usize = from;
    while i <= n - m
        invariant
            n == s@.len(),
            m == pat@.len(),
            1 <= m <= n,
            from <= i <= n,
            find_at(s@, pat@, from as int) == find_at(s@, pat@, i as int),
        decreases n - i,
    {
        let mut k: usize = 0;
        let mut ok: bool = true;
        while k < m && ok
            invariant
                n == s@.len(),
                m == pat@.len(),
                1 <= m <= n,
                i + m <= n,
                0 <= k <= m,
                ok ==> forall|t: int| 0 <= t < k ==> s@[i + t] == pat@[t],
                !ok ==> exists|t: int| 0 <= t < m && s@[i + t] != pat@[t],
            decreases m - k + (if ok {
                1int
            } else {
                0int
            }),
        {
            if s.get_char(i + k) != pat.get_char(k) {
                proof {
                    assert(s@[i + k] != pat@[k as int]);
                }
                ok = false;
            } else {
                k = k + 1;
            }
        }
        if ok {
            proof {
                assert(s@.subrange(i as int, i + m) =~= pat@);
                assert(occurs_at(s@, pat@, i as int));
            }
            return Some(i);
        }
        proof {
            let t = choose|t: int| 0 <= t < m && s@[i + t] != pat@[t];
            if occurs_at(s@, pat@, i as int) {
                assert(s@.subrange(i as int, i + m)[t] == pat@[t]);
            }
            assert(!occurs_at(s@, pat@, i as int));
        }
        i = i + 1;
    }
    proof {
        assert(i + m > n);
    }
    None
}

/// Whether `s` contains `pat`; equivalent to `contains_seq` on the views.
pub fn contains_str(s: &str, pat: &str) -> (r: bool)
    requires
        pat@.len() >= 1,
    ensures
        r == contains_seq(s@, pat@),
{
    let r = find_from(s, pat, 0);
    proof {
        match find_at(s@, pat@, 0) {
            Some(j) => {
                lemma_find_at_some(s@, pat@, 0, j);
            },
            None => {
                lemma_find_at_none(s@, pat@, 0);
                assert forall|i: int| !occurs_at(s@, pat@, i) by {
                    if i < 0 {
                        assert(!occurs_at(s@, pat@, i));
                    } else {
                        assert(i >= 0);
                    }
                }
            },
        }
    }
    r.is_some()
}

/// The whitespace characters removed by trimming: the Unicode white space
/// set that the standard trim removes, given by code point.
pub open spec fn is_space(c: char) -> bool {
    c as int == 0x20 || c as int == 0x09 || c as int == 0x0a || c as int == 0x0b || c as int
        == 0x0c || c as int == 0x0d || c as int == 0x85 || c as int == 0xa0 || c as int == 0x1680
        || (0x2000 <= c as int && c as int <= 0x200a) || c as int == 0x2028 || c as int == 0x2029
        || c as int == 0x202f || c as int == 0x205f || c as int == 0x3000
}

/// `s` with leading and trailing whitespace removed.
pub open spec fn trim_seq(s: Seq<char>) -> Seq<char>
    decreases s.len(),
{
    if s.len() == 0 {
        s
    } else if is_space(s[0]) {
        trim_seq(s.subrange(1, s.len() as int))
    } else if is_space(s[s.len() - 1]) {
        trim_seq(s.subrange(0, s.len() - 1))
    } else {
        s
    }
}

fn space(c: char) -> (r: bool)
    ensures
        r == is_space(c),
{
    let v: u32 = c as u32;
    v == 0x20 || v == 0x09 || v == 0x0a || v == 0x0b || v == 0x0c || v == 0x0d || v == 0x85 || v
        == 0xa0 || v == 0x1680 || (0x2000 <= v && v <= 0x200a) || v == 0x2028 || v == 0x2029 || v
        == 0x202f || v == 0x205f || v == 0x3000
}

/// `s` without its leading and trailing whitespace.
pub fn trim<'a>(s: &'a str) -> (r: &'a str)
    ensures
        r@ == trim_seq(s@),
{
    let n: usize = s.unicode_len();
    let mut a: usize = 0;
    let mut b: usize = n;
    proof {
        assert(s@.subrange(0, n as int) =~= s@);
    }
    while a < b && space(s.get_char(a))
        invariant
            n == s@.len(),
            0 <= a <= b <= n,
            trim_seq(s@) == trim_seq(s@.subrange(a as int, b as int)),
        decreases b - a,
    {
        proof {
            let sub = s@.subrange(a as int, b as int);
            assert(sub.subrange(1, sub.len() as int) =~= s@.subrange(a + 1, b as int));
        }
        a = a + 1;
    }
    while a < b && space(s.get_char(b - 1))
        invariant
            n == s@.len(),
            0 <= a <= b <= n,
            trim_seq(s@) == trim_seq(s@.subrange(a as int, b as int)),
            a < b ==> !is_space(s@[a as int]),
        decreases b - a,
    {
        proof {
            let sub = s@.subrange(a as int, b as int);
            assert(!is_space(sub[0]));
            assert(sub.subrange(0, sub.len() - 1) =~= s@.subrange(a as int, b - 1));
        }
        b = b - 1;
    }
    proof {
        let sub = s@.subrange(a as int, b as int);
        if a == b {
            assert(sub =~= Seq::<char>::empty());
        } else {
            assert(!is_space(sub[0]));
            assert(!is_space(sub[sub.len() - 1]));
        }
        assert(trim_seq(sub) == sub);
    }
    s.substring_char(a, b)
}

/// The suffix of `s` after its last `'/'`; the whole of `s` when it has none.
pub open spec fn after_last_slash(s: Seq<char>) -> Seq<char>
    decreases s.len(),
{
    if s.len() == 0 {
        s
    } else if s[s.len() - 1] == '/' {
        Seq::empty()
    } else {
        after_last_slash(s.subrange(0, s.len() - 1)).push(s[s.len() - 1])
    }
}

/// The suffix of `s` after its last `'/'`.
pub fn last_path_segment<'a>(s: &'a str) -> (r: &'a str)
    ensures
        r@ == after_last_slash(s@),
{
    let n: usize = s.unicode_len();
    let mut i: usize = n;
    proof {
        assert(s@.subrange(0, n as int) =~= s@);
        assert(s@.subrange(n as int, n as int) =~= Seq::<char>::empty());
        assert(s@ + Seq::<char>::empty() =~= s@);
    }
    while i > 0 && s.get_char(i - 1) != '/'
        invariant
            n == s@.len(),
            0 <= i <= n,
            after_last_slash(s@) == after_last_slash(s@.subrange(0, i as int)) + s@.subrange(
                i as int,
                n as int,
            ),
        decreases i,
    {
        proof {
            let sub = s@.subrange(0, i as int);
            assert(sub[sub.len() - 1] == s@[i - 1]);
            assert(sub.subrange(0, sub.len() - 1) =~= s@.subrange(0, i - 1));
            assert(after_last_slash(sub) == after_last_slash(s@.subrange(0, i - 1)).push(
                s@[i - 1],
            ));
            assert(after_last_slash(s@.subrange(0, i - 1)).push(s@[i - 1]) + s@.subrange(
                i as int,
                n as int,
            ) =~= after_last_slash(s@.subrange(0, i - 1)) + s@.subrange(i - 1, n as int));
        }
        i = i - 1;
    }
    proof {
        if i == 0 {
            assert(s@.subrange(0, 0) =~= Seq::<char>::empty());
            assert(after_last_slash(Seq::<char>::empty()) + s@.subrange(0, n as int) =~= s@.subrange(
                0,
                n as int,
            ));
            assert(s@.subrange(0, n as int) =~= s@);
        } else {
            let sub = s@.subrange(0, i as int);
            assert(sub[sub.len() - 1] == '/');
            assert(after_last_slash(sub) =~= Seq::<char>::empty());
            assert(Seq::<char>::empty() + s@.subrange(i as int, n as int) =~= s@.subrange(
                i as int,
                n as int,
            ));
        }
    }
    s.substring_char(i, n)
}

/// Whether `s` begins with `pat`.
pub open spec fn starts_with_seq(s: Seq<char>, pat: Seq<char>) -> bool {
    s.len() >= pat.len() && s.subrange(0, pat.len() as int) == pat
}

/// Whether `s` begins with `pat`.
pub fn starts_with(s: &str, pat: &str) -> (r: bool)
    ensures
        r == starts_with_seq(s@, pat@),
{
    let n: usize = s.unicode_len();
    let m: usize = pat.unicode_len();
    if m > n {
        return false;
    }
    let mut k: usize = 0;
    while k < m
        invariant
            n == s@.len(),
            m == pat@.len(),
            m <= n,
            0 <= k <= m,
            forall|t: int| 0 <= t < k ==> s@[t] == pat@[t],
        decreases m - k,
    {
        if s.get_char(k) != pat.get_char(k) {
            proof {
                if starts_with_seq(s@, pat@) {
                    assert(s@.subrange(0, m as int)[k as int] == pat@[k as int]);
                }
            }
            return false;
        }
        k = k + 1;
    }
    proof {
        assert(s@.subrange(0, m as int) =~= pat@);
    }
    true
}

} // verus!
