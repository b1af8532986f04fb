use rerec::sample::SampleError;
use rerec::sample::parse;

const GOOD_REPORT: &str =
    "6a 01 4b 46 7f ff 0c 10 3a : crc=3a YES\n6a 01 4b 46 7f ff 0c 10 3a t=22625\n";
const BAD_CRC_REPORT: &str =
    "6a 01 4b 46 7f ff 0c 10 3a : crc=3a NO\n6a 01 4b 46 7f ff 0c 10 3a t=22625\n";

#[test]
fn parse_valid_report() {
    let sample = parse("28-000000000000", GOOD_REPORT).unwrap();
    assert_eq!(sample.raw_milliunits, 22625);
    assert_eq!(sample.device_name, "28-000000000000");
}

#[test]
fn parse_rejects_crc_failure() {
    let err = parse("28-000000000000", BAD_CRC_REPORT).unwrap_err();
    assert_eq!(err, SampleError::Checksum);
    assert_eq!(err.message(), "CRC check failed");
}

#[test]
fn parse_checks_integrity_before_value() {
    // No integrity marker at all: still a checksum failure, with or
    // without a value present.
    let err = parse("28-0", "t=22625\n").unwrap_err();
    assert_eq!(err, SampleError::Checksum);
    let err = parse("28-0", "no marker here").unwrap_err();
    assert_eq!(err, SampleError::Checksum);
}

#[test]
fn parse_missing_value_marker() {
    let err = parse("28-0", "crc=3a YES\nno temperature here\n").unwrap_err();
    assert_eq!(err, SampleError::MissingValue);
}

#[test]
fn parse_invalid_value_token() {
    let err = parse("28-0", "crc=3a YES\nt=abc\n").unwrap_err();
    assert_eq!(err, SampleError::InvalidValue);
    let err = parse("28-0", "crc=3a YES\nt=\n").unwrap_err();
    assert_eq!(err, SampleError::InvalidValue);
    let err = parse("28-0", "crc=3a YES\nt=12 34\n").unwrap_err();
    assert_eq!(err, SampleError::InvalidValue);
}

#[test]
fn parse_negative_value() {
    let sample = parse("28-0", "crc=3a YES\nt=-22625\n").unwrap();
    assert_eq!(sample.raw_milliunits, -22625);
}

#[test]
fn parse_signed_and_padded_values() {
    assert_eq!(parse("28-0", "YES t=+125\n").unwrap().raw_milliunits, 125);
    assert_eq!(parse("28-0", "YES t=000125\n").unwrap().raw_milliunits, 125);
    assert_eq!(parse("28-0", "YES t=  125  \n").unwrap().raw_milliunits, 125);
    assert_eq!(parse("28-0", "YES t=0\n").unwrap().raw_milliunits, 0);
}

#[test]
fn parse_value_range_limits() {
    assert_eq!(
        parse("28-0", "YES t=2147483647").unwrap().raw_milliunits,
        2147483647
    );
    assert_eq!(
        parse("28-0", "YES t=-2147483648").unwrap().raw_milliunits,
        -2147483648
    );
    assert_eq!(
        parse("28-0", "YES t=2147483648").unwrap_err(),
        SampleError::InvalidValue
    );
    assert_eq!(
        parse("28-0", "YES t=-2147483649").unwrap_err(),
        SampleError::InvalidValue
    );
}

#[test]
fn parse_takes_segment_before_second_marker() {
    // The value runs from the first marker to the next one.
    assert_eq!(parse("28-0", "YES t=125t=999").unwrap().raw_milliunits, 125);
}

#[test]
fn parse_error_messages() {
    assert_eq!(
        SampleError::MissingValue.message(),
        "Failed to find temperature"
    );
    assert_eq!(
        SampleError::InvalidValue.message(),
        "Failed to parse temperature"
    );
}

#[test]
fn parse_trims_unicode_whitespace() {
    // The trim removes the whole Unicode white space set, as the standard
    // trim does: here a no-break space and an ogham space mark.
    assert_eq!(
        parse("28-0", "YES t=\u{a0}125\u{1680}\n").unwrap().raw_milliunits,
        125
    );
}
