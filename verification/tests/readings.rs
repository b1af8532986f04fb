use rerec::reading::BME280;
use rerec::reading::DS18B20;
use rerec::reading::Reading;

#[test]
fn test_reading() {
    let _reading = DS18B20 {
        device_name: "28-000000000000".into(),
        raw_reading: 22625,
    };
}

#[test]
fn test_new() {
    let _reading = DS18B20::new("28-000000000000".into(), 22625);
}

#[test]
fn test_debug() {
    let reading = DS18B20::new("28-000000000000".into(), 22625);
    let debug_output = format!("{:?}", reading);
    assert!(debug_output.contains("DS18B20"));
    assert!(debug_output.contains("28-000000000000"));
    assert!(debug_output.contains("22625"));
}

#[test]
fn test_partial_eq() {
    let reading1 = DS18B20::new("28-000000000000".into(), 22625);
    let reading1_again = DS18B20::new("28-000000000000".into(), 22625);
    let reading2 = DS18B20::new("28-000000000000".into(), 23000);

    assert_eq!(reading1, reading1_again);
    assert_ne!(reading1, reading2);
}

#[test]
fn test_get_device_name() {
    let reading = DS18B20::new("28-000000000000".into(), 22625);
    let actual = reading.device_name();
    assert_eq!(actual, "28-000000000000");
}

#[test]
fn test_display() {
    let reading = DS18B20::new("28-000000000000".into(), 22625);
    assert_eq!(reading.display_string(), "28-000000000000: 22.625 °C");

    let reading = DS18B20::new("28-000000000000".into(), -22625);
    assert_eq!(reading.display_string(), "28-000000000000: -22.625 °C");
}

#[test]
fn test_get_raw_reading() {
    let reading = DS18B20::new("28-000000000000".into(), 22625);
    assert_eq!(reading.raw_reading(), 22625);
}

#[test]
fn bme280_test_reading() {
    let _reading = BME280 {
        temperature_milli: 22625,
        pressure_milli: 101325000,
        humidity_milli: 35000,
    };
}

#[test]
fn bme280_test_new() {
    let _reading = BME280::new(22625, 101325000, 35000);
}

#[test]
fn bme280_test_get_temperature() {
    let reading = BME280::new(22625, 101325000, 35000);
    assert_eq!(reading.temperature_milli(), 22625);
}

#[test]
fn bme280_test_get_pressure() {
    let reading = BME280::new(22625, 101325000, 35000);
    assert_eq!(reading.pressure_milli(), 101325000);
}

#[test]
fn bme280_test_get_humidity() {
    let reading = BME280::new(22625, 101325000, 35000);
    assert_eq!(reading.humidity_milli(), 35000);
}

#[test]
fn bme280_test_display() {
    let reading = BME280::new(22625, 101325000, 35000);
    assert_eq!(
        reading.display_string(),
        "BME280: 22.62 °C, 101325.00 Pa, 35.00%"
    );
}

#[test]
fn display_trims_trailing_zero_milli() {
    assert_eq!(
        DS18B20::new("28-0".into(), 22000).display_string(),
        "28-0: 22 °C"
    );
    assert_eq!(
        DS18B20::new("28-0".into(), 22100).display_string(),
        "28-0: 22.1 °C"
    );
    assert_eq!(
        DS18B20::new("28-0".into(), 22010).display_string(),
        "28-0: 22.01 °C"
    );
    assert_eq!(DS18B20::new("28-0".into(), -5).display_string(), "28-0: -0.005 °C");
    assert_eq!(DS18B20::new("28-0".into(), 0).display_string(), "28-0: 0 °C");
}

#[test]
fn display_rounds_half_to_even() {
    // 22.625 rounds down to 22.62, 22.635 up to 22.64, as the shortest
    // two-decimal float rendering does.
    assert_eq!(
        BME280::new(22635, 0, 0).display_string(),
        "BME280: 22.64 °C, 0.00 Pa, 0.00%"
    );
    assert_eq!(
        BME280::new(-22625, 0, 0).display_string(),
        "BME280: -22.62 °C, 0.00 Pa, 0.00%"
    );
}

#[test]
fn reading_variants_compare_unequal() {
    let thermal = Reading::DS18B20(DS18B20::new("28-0".into(), 22625));
    let combined = Reading::BME280(BME280::new(22625, 101325000, 35000));
    assert_ne!(thermal, combined);
    let thermal_again = Reading::DS18B20(DS18B20::new("28-0".into(), 22625));
    assert_eq!(thermal, thermal_again);
}

#[test]
fn reading_display_dispatches() {
    let thermal = Reading::DS18B20(DS18B20::new("28-000000000000".into(), 22625));
    assert_eq!(thermal.display_string(), "28-000000000000: 22.625 °C");
    let combined = Reading::BME280(BME280::new(22625, 101325000, 35000));
    assert_eq!(
        combined.display_string(),
        "BME280: 22.62 °C, 101325.00 Pa, 35.00%"
    );
}
