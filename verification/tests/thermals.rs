use sentinel::thermals::{read_zone, sort_zone_readings};

#[test]
fn reads_thermal_zones() {
    let z = read_zone("thermal_zone0", Some("x86_pkg_temp\n"), Some("45000\n")).unwrap();
    assert_eq!(z.label, "x86_pkg_temp");
    assert_eq!(z.millidegrees, 45000);
    let z = read_zone("thermal_zone3", None, Some(" 150000 ")).unwrap();
    assert_eq!(z.label, "thermal_zone3");
    assert_eq!(z.millidegrees, 150000);
    assert!(read_zone("cooling_device0", Some("fan"), Some("1000")).is_none());
    assert!(read_zone("thermal_zone1", Some("acpi"), None).is_none());
    assert!(read_zone("thermal_zone1", Some("acpi"), Some("hot")).is_none());
    assert!(read_zone("thermal_zone1", Some("acpi"), Some("150001")).is_none());
    assert!(read_zone("thermal_zone1", Some("acpi"), Some("-1")).is_none());
    assert_eq!(read_zone("thermal_zone1", Some("acpi"), Some("0")).unwrap().millidegrees, 0);
    assert_eq!(read_zone("thermal_zone1", Some("acpi"), Some("+12")).unwrap().millidegrees, 12);
    assert!(read_zone("thermal_zone1", Some("acpi"), Some("-9223372036854775808")).is_none());
}

#[test]
fn sorts_zones_by_label() {
    let zones = vec![
        read_zone("thermal_zone0", Some("b"), Some("1")).unwrap(),
        read_zone("thermal_zone1", Some("a"), Some("2")).unwrap(),
        read_zone("thermal_zone2", Some("b"), Some("3")).unwrap(),
    ];
    let sorted = sort_zone_readings(zones);
    let v: Vec<(String, i64)> = sorted.into_iter().map(|z| (z.label, z.millidegrees)).collect();
    assert_eq!(
        v,
        vec![("a".to_string(), 2), ("b".to_string(), 1), ("b".to_string(), 3)]
    );
}
