//! Parsing of a thermal probe's raw textual report: an integrity gate on the
//! `YES` marker, then extraction of the signed milli-degree value after the
//! first `t=` marker.

use vstd::prelude::*;
use vstd::string::*;
use crate::decimal::parse_i32;
use crate::decimal::parse_i32_seq;
use crate::text::contains_seq;
use crate::text::contains_str;
use crate::text::find_at;
use crate::text::find_from;
use crate::text::lemma_find_at_some;
use crate::text::trim;
use crate::text::trim_seq;

verus! {

/// The integrity marker whose presence a report must show before any value
/// in it is trusted.
pub open spec fn yes_marker() -> Seq<char> {
    seq!['Y', 'E', 'S']
}

/// The marker that introduces the temperature value.
pub open spec fn t_marker() -> Seq<char> {
    seq!['t', '=']
}

/// Whether the report carries the integrity marker.
pub open spec fn has_integrity_marker(s: Seq<char>) -> bool {
    contains_seq(s, yes_marker())
}

/// The raw text between the first `t=` marker and the next one (or the end
/// of the report), before trimming; `None` when the report has no `t=`.
pub open spec fn value_segment(s: Seq<char>) -> Option<Seq<char>> {
    match find_at(s, t_marker(), 0) {
        None => None,
        Some(i) => {
            let start = i + 2;
            let end = match find_at(s, t_marker(), start) {
                None => s.len() as int,
                Some(j) => j,
            };
            Some(s.subrange(start, end))
        },
    }
}

/// The milli-unit value that the report denotes: the trimmed value segment
/// read as a signed 32-bit decimal integer.
pub open spec fn sample_value(s: Seq<char>) -> Option<int> {
    match value_segment(s) {
        None => None,
        Some(seg) => parse_i32_seq(trim_seq(seg)),
    }
}

/// A validated raw measurement: a signed milli-unit value together with the
/// name of the device that reported it.
#[derive(Debug, Clone)]
pub struct RawSample {
    pub device_name: String,
    pub raw_milliunits: i32,
}

/// Why a raw report was rejected: `Checksum` is the integrity failure of the
/// error taxonomy; `MissingValue` and `InvalidValue` are its two parse
/// failures.
#[derive(Debug, Clone, Copy, PartialEq, Eq, Structural)]
pub enum SampleError {
    /// The report lacks the `YES` integrity marker.
    Checksum,
    /// The report carries no `t=` marker.
    MissingValue,
    /// The token after `t=` is not a signed 32-bit decimal integer.
    InvalidValue,
}

impl SampleError {
    /// The human-readable cause of the failure.
    pub open spec fn spec_message(self) -> Seq<char> {
        match self {
            SampleError::Checksum => "CRC check failed"@,
            SampleError::MissingValue => "Failed to find temperature"@,
            SampleError::InvalidValue => "Failed to parse temperature"@,
        }
    }

    /// The human-readable cause of the failure.
    pub fn message(&self) -> (r: String)
        ensures
            r@ == self.spec_message(),
    {
        match self {
            SampleError::Checksum => String::from_str("CRC check failed"),
            SampleError::MissingValue => String::from_str("Failed to find temperature"),
            SampleError::InvalidValue => String::from_str("Failed to parse temperature"),
        }
    }
}

/// Parses a raw report into a validated sample for the named device.
///
/// The integrity gate comes first and unconditionally: a report without the
/// `YES` marker is rejected as a checksum failure whether or not it carries
/// a value. Only then is the text after the first `t=` marker trimmed and
/// read as a signed 32-bit milli-unit integer.
pub fn parse(device_name: &str, report: &str) -> (r: Result<RawSample, SampleError>)
    ensures
        match r {
            Ok(sample) => has_integrity_marker(report@) && sample_value(report@) == Some(
                sample.raw_milliunits as int,
            ) && sample.device_name@ == device_name@,
            Err(e) => match e {
                SampleError::Checksum => !has_integrity_marker(report@),
                SampleError::MissingValue => has_integrity_marker(report@) && value_segment(
                    report@,
                ) is None,
                SampleError::InvalidValue => has_integrity_marker(report@) && value_segment(
                    report@,
                ) is Some && sample_value(report@) is None,
            },
        },
{
    proof {
        reveal_strlit("YES");
        assert("YES"@ =~= yes_marker());
        reveal_strlit("t=");
        assert("t="@ =~= t_marker());
    }
    if !contains_str(report, "YES") {
        return Err(SampleError::Checksum);
    }
    let n: usize = report.unicode_len();
    match find_from(report, "t=", 0) {
        None => Err(SampleError::MissingValue),
        Some(i) => {
            proof {
                lemma_find_at_some(report@, t_marker(), 0, i as int);
            }
            let start: usize = i + 2;
            let end: usize = match find_from(report, "t=", start) {
                None => n,
                Some(j) => {
                    proof {
                        lemma_find_at_some(report@, t_marker(), start as int, j as int);
                    }
                    j
                },
            };
            let seg = report.substring_char(start, end);
            let trimmed = trim(seg);
            match parse_i32(trimmed) {
                Some(v) => Ok(
                    RawSample { device_name: String::from_str(device_name), raw_milliunits: v },
                ),
                None => Err(SampleError::InvalidValue),
            }
        },
    }
}

} // verus!
