use rerec::ident::RecordId;
use rerec::reading::BME280;
use rerec::reading::DS18B20;
use rerec::reading::Reading;
use rerec::record::Record;
use rerec::sample::parse;
use rerec::timestamp::Timestamp;

const ID_VALUE: u128 = 0x3fa85f64_5717_4562_b3fc_2c963f66afa6;

fn sample_reading() -> Reading {
    Reading::BME280(BME280::new(22625, 101325000, 35000))
}

#[test]
fn test_record() {
    let _record = Record {
        id: RecordId::fresh(),
        timestamp: Timestamp::now(),
        reading: sample_reading(),
    };
}

#[test]
fn record_test_new() {
    let id = RecordId::fresh();
    let timestamp = Timestamp::now();
    let reading = sample_reading();
    let reading_copy = reading.clone();
    let record = Record::new(id, timestamp, reading);
    assert_eq!(record.id(), id);
    assert_eq!(record.timestamp(), timestamp);
    assert_eq!(record.reading(), &reading_copy);
}

#[test]
fn test_id() {
    let id = RecordId::fresh();
    let timestamp = Timestamp::now();
    let record = Record::new(id, timestamp, sample_reading());
    assert_eq!(record.id(), id);
}

#[test]
fn test_timestamp() {
    let id = RecordId::fresh();
    let timestamp = Timestamp::now();
    let record = Record::new(id, timestamp, sample_reading());
    assert_eq!(record.timestamp(), timestamp);
}

#[test]
fn record_test_reading() {
    let id = RecordId::fresh();
    let timestamp = Timestamp::now();
    let reading = sample_reading();
    let reading_copy = reading.clone();
    let record = Record::new(id, timestamp, reading);
    assert_eq!(record.reading(), &reading_copy);
}

#[test]
fn record_test_display() {
    let id = RecordId::fresh();
    let timestamp = Timestamp::now();
    let record = Record::new(id, timestamp, sample_reading());

    let expected = format!(
        "[{}] BME280: 22.62 °C, 101325.00 Pa, 35.00% ({})",
        timestamp.display_string(),
        id.render()
    );
    assert_eq!(record.display_string(), expected);
}

#[test]
fn record_display_with_fixed_instant() {
    let id = RecordId { value: ID_VALUE };
    let timestamp = Timestamp::new(1766462627, 117838086).unwrap();
    let reading = Reading::DS18B20(DS18B20::new("28-000000000000".into(), 22625));
    let record = Record::new(id, timestamp, reading);
    assert_eq!(
        record.display_string(),
        "[2025-12-23 04:03:47.117838086 UTC] 28-000000000000: 22.625 °C \
         (3fa85f64-5717-4562-b3fc-2c963f66afa6)"
    );
}

#[test]
fn record_assemble_keeps_reading_and_mints_v4_id() {
    let record = Record::assemble(sample_reading());
    assert_eq!(record.reading(), &sample_reading());
    assert_eq!((record.id().value >> 76) & 0xf, 4);
    assert_eq!((record.id().value >> 62) & 3, 2);
}

#[test]
fn record_assemble_ids_are_unique() {
    let a = Record::assemble(sample_reading());
    let b = Record::assemble(sample_reading());
    assert_ne!(a.id(), b.id());
}

#[test]
fn record_to_json_thermal() {
    let id = RecordId { value: ID_VALUE };
    let timestamp = Timestamp::new(1766462627, 117838086).unwrap();
    let reading = Reading::DS18B20(DS18B20::new("28-000000000000".into(), 22625));
    let record = Record::new(id, timestamp, reading);
    assert_eq!(
        record.to_json(),
        "{\"id\":\"3fa85f64-5717-4562-b3fc-2c963f66afa6\",\
         \"timestamp\":\"2025-12-23T04:03:47.117838086Z\",\
         \"reading\":{\"type\":\"DS18B20\",\"device_name\":\"28-000000000000\",\
         \"raw_reading\":22625}}"
    );
}

#[test]
fn record_to_json_combined() {
    let id = RecordId { value: ID_VALUE };
    let timestamp = Timestamp::new(951827445, 0).unwrap();
    let record = Record::new(id, timestamp, sample_reading());
    assert_eq!(
        record.to_json(),
        "{\"id\":\"3fa85f64-5717-4562-b3fc-2c963f66afa6\",\
         \"timestamp\":\"2000-02-29T12:30:45Z\",\
         \"reading\":{\"type\":\"BME280\",\"temperature\":22.625,\
         \"pressure\":101325,\"humidity\":35}}"
    );
}

#[test]
fn record_to_json_escapes_device_name() {
    let id = RecordId { value: ID_VALUE };
    let timestamp = Timestamp::new(0, 0).unwrap();
    let reading = Reading::DS18B20(DS18B20::new("a\"b\\c\nd".into(), 1));
    let record = Record::new(id, timestamp, reading);
    let body = record.to_json();
    assert!(body.contains("\"device_name\":\"a\\\"b\\\\c\\nd\""));
}

#[test]
fn timestamp_rfc3339_renderings() {
    assert_eq!(
        Timestamp::new(0, 0).unwrap().to_rfc3339(),
        "1970-01-01T00:00:00Z"
    );
    assert_eq!(
        Timestamp::new(1709251199, 0).unwrap().to_rfc3339(),
        "2024-02-29T23:59:59Z"
    );
    assert_eq!(
        Timestamp::new(946684799, 0).unwrap().to_rfc3339(),
        "1999-12-31T23:59:59Z"
    );
    assert_eq!(
        Timestamp::new(253402300799, 0).unwrap().to_rfc3339(),
        "9999-12-31T23:59:59Z"
    );
}

#[test]
fn timestamp_subsecond_grouping() {
    assert_eq!(
        Timestamp::new(0, 117000000).unwrap().to_rfc3339(),
        "1970-01-01T00:00:00.117Z"
    );
    assert_eq!(
        Timestamp::new(0, 117838000).unwrap().to_rfc3339(),
        "1970-01-01T00:00:00.117838Z"
    );
    assert_eq!(
        Timestamp::new(0, 117838086).unwrap().to_rfc3339(),
        "1970-01-01T00:00:00.117838086Z"
    );
    assert_eq!(
        Timestamp::new(0, 5).unwrap().to_rfc3339(),
        "1970-01-01T00:00:00.000000005Z"
    );
}

#[test]
fn timestamp_rejects_out_of_range_parts() {
    assert!(Timestamp::new(-1, 0).is_none());
    assert!(Timestamp::new(253402300800, 0).is_none());
    assert!(Timestamp::new(0, 1_000_000_000).is_none());
}

#[test]
fn end_to_end_thermal_report_to_rendering() {
    let report = "6a 01 4b 46 7f ff 0c 10 3a : crc=3a YES\n6a 01 4b 46 7f ff 0c 10 3a t=22625\n";
    let sample = parse("28-000000000000", report).unwrap();
    let reading = Reading::DS18B20(DS18B20::new(sample.device_name, sample.raw_milliunits));
    assert_eq!(reading.display_string(), "28-000000000000: 22.625 °C");
    let record = Record::assemble(reading);
    let rendered = record.display_string();
    assert!(rendered.contains("28-000000000000: 22.625 °C"));
}

#[test]
fn timestamp_normalize_folds_leap_second() {
    let t = Timestamp::normalize_parts(1766462627, 1_500_000_000);
    assert_eq!(t.secs, 1766462628);
    assert_eq!(t.nanos, 500_000_000);
    let t = Timestamp::normalize_parts(1766462627, 117838086);
    assert_eq!(t.secs, 1766462627);
    assert_eq!(t.nanos, 117838086);
}

#[test]
fn timestamp_normalize_clamps_range() {
    let t = Timestamp::normalize_parts(-5, 0);
    assert_eq!(t.secs, 0);
    let t = Timestamp::normalize_parts(i64::MAX, 1_999_999_999);
    assert_eq!(t.secs, 253402300799);
    assert_eq!(t.nanos, 999_999_999);
    let t = Timestamp::normalize_parts(253402300800, 0);
    assert_eq!(t.secs, 253402300799);
}
