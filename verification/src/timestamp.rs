//! Capture timestamps: a UTC instant as non-negative seconds since the Unix
//! epoch with a sub-second nanosecond part, rendered in the RFC 3339 profile
//! for the wire and in a human-readable UTC form for display. The calendar
//! arithmetic is this crate's verified logic; only reading the clock is
//! delegated to the datetime crate.

use vstd::prelude::*;
use vstd::string::*;
use crate::decimal::dec_digits;
use crate::decimal::digit_char;
use crate::decimal::digit_str;
use crate::decimal::push_decimal;

verus! {

/// Whether `y` is a leap year of the proleptic Gregorian calendar.
pub open spec fn is_leap(y: int) -> bool {
    y % 4 == 0 && (y % 100 != 0 || y % 400 == 0)
}

/// The number of days in the year `y`.
pub open spec fn days_in_year(y: int) -> int {
    if is_leap(y) {
        366
    } else {
        365
    }
}

/// The number of days in month `m` (1-based) of year `y`.
pub open spec fn days_in_month(y: int, m: int) -> int {
    if m == 2 {
        if is_leap(y) {
            29
        } else {
            28
        }
    } else if m == 4 || m == 6 || m == 9 || m == 11 {
        30
    } else {
        31
    }
}

/// The year holding the day `days` days after January 1 of year `y`,
/// paired with the remaining day-of-year offset.
pub open spec fn civil_year(days: int, y: int) -> (int, int)
    decreases days,
{
    if days < days_in_year(y) {
        (y, days)
    } else {
        civil_year(days - days_in_year(y), y + 1)
    }
}

/// The month holding the day `doy` days after the first of month `m` of
/// year `y`, paired with the remaining day-of-month offset.
pub open spec fn civil_month(doy: int, y: int, m: int) -> (int, int)
    decreases 12 - m,
{
    if doy < days_in_month(y, m) || m >= 12 {
        (m, doy)
    } else {
        civil_month(doy - days_in_month(y, m), y, m + 1)
    }
}

/// The calendar date of the day `days` days after 1970-01-01, as
/// (year, month, day), months and days 1-based.
pub open spec fn date_of_days(days: int) -> (int, int, int) {
    let yd = civil_year(days, 1970);
    let md = civil_month(yd.1, yd.0, 1);
    (yd.0, md.0, md.1 + 1)
}

/// Two decimal digits, zero-padded.
pub open spec fn two_digits(n: int) -> Seq<char> {
    seq![digit_char(n / 10), digit_char(n % 10)]
}

/// Three decimal digits, zero-padded.
pub open spec fn three_digits(n: int) -> Seq<char> {
    seq![digit_char(n / 100), digit_char((n / 10) % 10), digit_char(n % 10)]
}

/// The fractional-second part: empty for zero, else a point and three, six
/// or nine digits, whichever shortest keeps the value exact.
pub open spec fn frac_nanos(n: int) -> Seq<char> {
    if n == 0 {
        Seq::empty()
    } else if n % 1_000_000 == 0 {
        seq!['.'] + three_digits(n / 1_000_000)
    } else if n % 1_000 == 0 {
        seq!['.'] + three_digits(n / 1_000_000) + three_digits((n / 1_000) % 1_000)
    } else {
        seq!['.'] + three_digits(n / 1_000_000) + three_digits((n / 1_000) % 1_000) + three_digits(
            n % 1_000,
        )
    }
}

/// The date-and-time core of a rendering: `YYYY-MM-DD`, the given
/// separator, then `HH:MM:SS` and the fractional seconds.
pub open spec fn civil_rendered(secs: int, nanos: int, sep: Seq<char>) -> Seq<char> {
    let days = secs / 86400;
    let sod = secs % 86400;
    let date = date_of_days(days);
    dec_digits(date.0) + seq!['-'] + two_digits(date.1) + seq!['-'] + two_digits(date.2) + sep
        + two_digits(sod / 3600) + seq![':'] + two_digits((sod / 60) % 60) + seq![':'] + two_digits(
        sod % 60,
    ) + frac_nanos(nanos)
}

/// The RFC 3339 rendering of an instant: date, `T`, time, `Z`.
pub open spec fn rfc3339_rendered(secs: int, nanos: int) -> Seq<char> {
    civil_rendered(secs, nanos, seq!['T']) + seq!['Z']
}

/// The human-readable rendering of an instant: date, a space, time, and
/// ` UTC`.
pub open spec fn display_rendered(secs: int, nanos: int) -> Seq<char> {
    civil_rendered(secs, nanos, seq![' ']) + " UTC"@
}

/// A UTC instant: non-negative seconds since the Unix epoch, no later than
/// the last representable second of year 9999, with sub-second nanoseconds.
#[derive(Debug, Clone, Copy, PartialEq, Eq, Structural)]
pub struct Timestamp {
    pub secs: i64,
    pub nanos: u32,
}

/// Relies on `chrono::Utc::now`, `chrono::DateTime::timestamp` and
/// `chrono::DateTime::timestamp_subsec_nanos`: the current instant as
/// non-leap seconds since the Unix epoch and nanoseconds since the last
/// second boundary, the latter below two thousand million (it exceeds the
/// sub-second range only during a leap second).
#[verifier::external_body]
fn now_parts() -> (r: (i64, u32))
    ensures
        r.1 < 2_000_000_000,
{
    let now = chrono::Utc::now();
    (now.timestamp(), now.timestamp_subsec_nanos())
}

fn days_in_year_x(y: i64) -> (r: i64)
    requires
        1970 <= y <= 20000,
    ensures
        r == days_in_year(y as int),
{
    if (y % 4 == 0 && y % 100 != 0) || y % 400 == 0 {
        366
    } else {
        365
    }
}

fn days_in_month_x(y: i64, m: i64) -> (r: i64)
    requires
        1970 <= y <= 20000,
        1 <= m <= 12,
    ensures
        r == days_in_month(y as int, m as int),
{
    if m == 2 {
        if (y % 4 == 0 && y % 100 != 0) || y % 400 == 0 {
            29
        } else {
            28
        }
    } else if m == 4 || m == 6 || m == 9 || m == 11 {
        30
    } else {
        31
    }
}

/// The latest representable second: 9999-12-31T23:59:59 UTC.
pub open spec fn max_secs() -> int {
    253402300799
}

fn push_two(n: u64, out: &mut String)
    ensures
        final(out)@ == old(out)@ + two_digits(n as int),
{
    out.append(digit_str(n / 10));
    out.append(digit_str(n % 10));
    proof {
        assert(out@ =~= old(out)@ + two_digits(n as int));
    }
}

fn push_three(n: u64, out: &mut String)
    ensures
        final(out)@ == old(out)@ + three_digits(n as int),
{
    out.append(digit_str(n / 100));
    out.append(digit_str((n / 10) % 10));
    out.append(digit_str(n % 10));
    proof {
        assert(out@ =~= old(out)@ + three_digits(n as int));
    }
}

impl Timestamp {
    /// Well-formedness: the instant lies between the epoch and the end of
    /// year 9999, and the nanoseconds are a proper sub-second part.
    pub open spec fn wf(self) -> bool {
        0 <= self.secs <= max_secs() && self.nanos <= 999_999_999
    }

    /// Wraps epoch seconds and nanoseconds, exactly when they denote a
    /// representable well-formed instant.
    pub fn new(secs: i64, nanos: u32) -> (r: Option<Timestamp>)
        ensures
            match r {
                Some(t) => t.secs == secs && t.nanos == nanos && t.wf(),
                None => !(Timestamp { secs, nanos }).wf(),
            },
    {
        if 0 <= secs && secs <= 253402300799 && nanos <= 999_999_999 {
            Some(Timestamp { secs, nanos })
        } else {
            None
        }
    }

    /// The well-formed instant that raw clock parts denote: a leap-second
    /// nanosecond overflow is folded into the next second (unless the
    /// seconds cannot grow), and the seconds are clamped into the
    /// representable range.
    pub open spec fn normalized(secs: int, nanos: int) -> Timestamp {
        let folded_secs = if nanos > 999_999_999 && secs < 0x7fff_ffff_ffff_ffff {
            secs + 1
        } else {
            secs
        };
        let folded_nanos = if nanos > 999_999_999 {
            nanos - 1_000_000_000
        } else {
            nanos
        };
        let clamped_secs = if folded_secs < 0 {
            0
        } else if folded_secs > max_secs() {
            max_secs()
        } else {
            folded_secs
        };
        Timestamp { secs: clamped_secs as i64, nanos: folded_nanos as u32 }
    }

    /// Folds and clamps raw clock parts into a well-formed instant.
    pub fn normalize_parts(secs: i64, nanos: u32) -> (r: Timestamp)
        requires
            nanos < 2_000_000_000,
        ensures
            r == Timestamp::normalized(secs as int, nanos as int),
            r.wf(),
    {
        let mut s: i64 = secs;
        let mut n: u32 = nanos;
        if n > 999_999_999 {
            n = n - 1_000_000_000;
            if s < i64::MAX {
                s = s + 1;
            }
        }
        if s < 0 {
            s = 0;
        }
        if s > 253402300799 {
            s = 253402300799;
        }
        Timestamp { secs: s, nanos: n }
    }

    /// The current instant, normalized: a reading outside the representable
    /// range — a clock before 1970 or beyond year 9999 — is clamped to the
    /// nearer bound, and a leap-second nanosecond overflow is folded into
    /// the next second. Only well-formedness can be promised of a clock
    /// reading; the normalization itself carries the exact contract.
    pub fn now() -> (r: Timestamp)
        ensures
            r.wf(),
    {
        let (secs, nanos) = now_parts();
        Timestamp::normalize_parts(secs, nanos)
    }

    /// Renders the date-and-time core with the given separator appended
    /// between date and time.
    #[verifier::rlimit(30)]
    fn push_civil(&self, sep: &str, out: &mut String)
        requires
            self.wf(),
        ensures
            final(out)@ == old(out)@ + civil_rendered(self.secs as int, self.nanos as int, sep@),
    {
        let s: u64 = self.secs as u64;
        let days: u64 = s / 86400;
        let sod: u64 = s % 86400;
        proof {
            assert(days <= 2932896);
        }
        let mut y: u64 = 1970;
        let mut rem: u64 = days;
        while rem >= days_in_year_x(y as i64) as u64
            invariant
                days <= 2932896,
                1970 <= y,
                days >= rem + (y - 1970) * 365,
                civil_year(days as int, 1970) == civil_year(rem as int, y as int),
            decreases rem,
        {
            let d = days_in_year_x(y as i64) as u64;
            rem = rem - d;
            y = y + 1;
            proof {
                assert(days >= rem + (y - 1970) * 365);
            }
        }
        let ghost yd = civil_year(days as int, 1970);
        proof {
            assert(yd == (y as int, rem as int));
            assert((y - 1970) * 365 <= 2932896);
            assert(y <= 10005);
        }
        let mut m: u64 = 1;
        let mut doy: u64 = rem;
        while m < 12 && doy >= days_in_month_x(y as i64, m as i64) as u64
            invariant
                1970 <= y <= 10005,
                1 <= m <= 12,
                doy <= rem,
                rem <= days,
                days <= 2932896,
                civil_month(rem as int, y as int, 1) == civil_month(doy as int, y as int, m as int),
            decreases 12 - m,
        {
            let d = days_in_month_x(y as i64, m as i64) as u64;
            doy = doy - d;
            m = m + 1;
        }
        let ghost md = civil_month(rem as int, y as int, 1);
        proof {
            assert(md == (m as int, doy as int));
            assert(date_of_days(days as int) == (y as int, m as int, doy as int + 1));
        }
        push_decimal(y, out);
        out.append("-");
        push_two(m, out);
        out.append("-");
        push_two(doy + 1, out);
        out.append(sep);
        push_two(sod / 3600, out);
        out.append(":");
        push_two((sod / 60) % 60, out);
        out.append(":");
        push_two(sod % 60, out);
        let n: u64 = self.nanos as u64;
        if n != 0 {
            out.append(".");
            push_three(n / 1_000_000, out);
            if n % 1_000_000 != 0 {
                push_three((n / 1_000) % 1_000, out);
                if n % 1_000 != 0 {
                    push_three(n % 1_000, out);
                }
            }
        }
        proof {
            reveal_strlit("-");
            reveal_strlit(":");
            reveal_strlit(".");
            assert("-"@ =~= seq!['-']);
            assert(":"@ =~= seq![':']);
            assert("."@ =~= seq!['.']);
            assert(out@ =~= old(out)@ + civil_rendered(
                self.secs as int,
                self.nanos as int,
                sep@,
            ));
        }
    }

    /// Renders the instant in the RFC 3339 profile used on the wire.
    pub fn to_rfc3339(&self) -> (r: String)
        requires
            self.wf(),
        ensures
            r@ == rfc3339_rendered(self.secs as int, self.nanos as int),
    {
        let mut out = String::new();
        self.push_civil("T", &mut out);
        out.append("Z");
        proof {
            reveal_strlit("T");
            reveal_strlit("Z");
            assert("T"@ =~= seq!['T']);
            assert("Z"@ =~= seq!['Z']);
            assert(out@ =~= rfc3339_rendered(self.secs as int, self.nanos as int));
        }
        out
    }

    /// Renders the instant for human-readable display, `YYYY-MM-DD
    /// HH:MM:SS[.frac] UTC`.
    pub fn display_string(&self) -> (r: String)
        requires
            self.wf(),
        ensures
            r@ == display_rendered(self.secs as int, self.nanos as int),
    {
        let mut out = String::new();
        self.push_civil(" ", &mut out);
        out.append(" UTC");
        proof {
            reveal_strlit(" ");
            assert(" "@ =~= seq![' ']);
            assert(out@ =~= display_rendered(self.secs as int, self.nanos as int));
        }
        out
    }
}

} // verus!
