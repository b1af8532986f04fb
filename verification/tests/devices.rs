use rerec::device::DS18B20;

#[test]
fn test_ds18b20() {
    let sysfs_path = String::from("/sys/bus/w1/devices/28-000000000000");
    let _device = DS18B20 { sysfs_path };
}

#[test]
fn ds18b20_test_debug() {
    let sysfs_path = String::from("/sys/bus/w1/devices/28-000000000000");
    let device = DS18B20 {
        sysfs_path: sysfs_path.clone(),
    };
    let debug_output = format!("{:?}", device);
    assert!(debug_output.contains("DS18B20"));
    assert!(debug_output.contains(&format!("{:?}", sysfs_path)));
}

#[test]
fn ds18b20_test_partial_eq() {
    let path1 = String::from("/sys/bus/w1/devices/28-000000000001");
    let path2 = String::from("/sys/bus/w1/devices/28-000000000002");

    let device1 = DS18B20 {
        sysfs_path: path1.clone(),
    };
    let device1_again = DS18B20 { sysfs_path: path1 };
    let device2 = DS18B20 { sysfs_path: path2 };

    assert_eq!(device1, device1_again);
    assert_ne!(device1, device2);
}

#[test]
fn test_get_name() {
    let sysfs_path = String::from("/sys/bus/w1/devices/28-000000000000");
    let device = DS18B20 { sysfs_path };
    let actual = device.device_name();
    let expected = "28-000000000000";
    assert_eq!(actual, expected);
}

#[test]
fn test_get_all() {
    let devices = DS18B20::get_all("/sys/bus/w1/devices/", None);
    assert!(devices.is_ok());
}

#[test]
fn get_all_missing_base_is_empty() {
    let devices = DS18B20::get_all("/no/such/place", None).unwrap();
    assert_eq!(devices.len(), 0);
}

#[test]
fn get_all_empty_listing() {
    let devices = DS18B20::get_all("/tmp/base", Some(vec![])).unwrap();
    assert_eq!(devices.len(), 0);
}

#[test]
fn get_all_filters_by_prefix() {
    let entries = vec![
        String::from("28-0001"),
        String::from("28-0002"),
        String::from("not-a-device"),
    ];
    let devices = DS18B20::get_all("/tmp/base", Some(entries)).unwrap();
    assert_eq!(devices.len(), 2);
    let names: Vec<String> = devices.iter().map(|d| d.device_name()).collect();
    assert!(names.contains(&String::from("28-0001")));
    assert!(names.contains(&String::from("28-0002")));
}

#[test]
fn get_all_joins_base_path() {
    let entries = vec![String::from("28-000000000000")];
    let devices = DS18B20::get_all("/sys/bus/w1/devices/", Some(entries)).unwrap();
    assert_eq!(devices[0].sysfs_path, "/sys/bus/w1/devices/28-000000000000");
    let devices = DS18B20::get_all("/sys/bus/w1/devices", Some(vec![String::from("28-9")])).unwrap();
    assert_eq!(devices[0].sysfs_path, "/sys/bus/w1/devices/28-9");
    assert_eq!(devices[0].device_name(), "28-9");
}

#[test]
fn read_report_parses_valid_report() {
    let device = DS18B20 {
        sysfs_path: String::from("/sys/bus/w1/devices/28-000000000000"),
    };
    let report =
        "6a 01 4b 46 7f ff 0c 10 3a : crc=3a YES\n6a 01 4b 46 7f ff 0c 10 3a t=22625\n";
    let reading = device.read_report(report).unwrap();
    let expected = rerec::reading::Reading::DS18B20(rerec::reading::DS18B20::new(
        "28-000000000000".into(),
        22625,
    ));
    assert_eq!(reading, expected);
}

#[test]
fn read_report_rejects_crc_failure() {
    let device = DS18B20 {
        sysfs_path: String::from("/sys/bus/w1/devices/28-000000000000"),
    };
    let report =
        "6a 01 4b 46 7f ff 0c 10 3a : crc=3a NO\n6a 01 4b 46 7f ff 0c 10 3a t=22625\n";
    let err = device.read_report(report).unwrap_err();
    assert_eq!(err.message(), "CRC check failed");
}
