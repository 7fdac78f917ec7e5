use lights_out::sensor::{
    celsius_from_millidegrees, device_node_path, find_cpu_sensor, find_gpu_bus, is_cpu_sensor,
    is_gpu_bus, parse_i32, read_temperature, SensorEntry, SensorError,
};

fn entry(name: Option<&str>, has_temp_input: bool) -> SensorEntry {
    SensorEntry { name: name.map(|n| n.as_bytes().to_vec()), has_temp_input }
}

#[test]
fn coretemp_tree_is_found_and_read() {
    let tree = vec![entry(Some("coretemp\n"), true)];
    assert_eq!(find_cpu_sensor(&tree), Ok(0));
    assert_eq!(read_temperature(b"45000"), Ok(45));
    assert_eq!(read_temperature(b"45000\n"), Ok(45));
}

#[test]
fn tree_without_cpu_chip_is_not_found() {
    let tree = vec![
        entry(Some("nvme\n"), true),
        entry(Some("amdgpu\n"), true),
        entry(None, true),
        entry(Some("acpitz"), false),
    ];
    assert_eq!(find_cpu_sensor(&tree), Err(SensorError::SensorNotFound));
    assert_eq!(find_cpu_sensor(&vec![]), Err(SensorError::SensorNotFound));
}

#[test]
fn first_matching_chip_with_input_wins() {
    let tree = vec![
        entry(Some("nvme\n"), true),
        entry(Some("k10temp\n"), false),
        entry(Some("k10temp\n"), true),
        entry(Some("coretemp\n"), true),
    ];
    assert_eq!(find_cpu_sensor(&tree), Ok(2));
}

#[test]
fn chip_names_match_exactly_after_trimming() {
    assert!(is_cpu_sensor(b"k10temp"));
    assert!(is_cpu_sensor(b"  coretemp\t\n"));
    assert!(!is_cpu_sensor(b"k10temp2"));
    assert!(!is_cpu_sensor(b"Coretemp"));
    assert!(!is_cpu_sensor(b""));
}

#[test]
fn temperature_parsing() {
    assert_eq!(parse_i32(b"0"), Ok(0));
    assert_eq!(parse_i32(b" +17 "), Ok(17));
    assert_eq!(parse_i32(b"-2147483648"), Ok(i32::MIN));
    assert_eq!(parse_i32(b"2147483647\n"), Ok(i32::MAX));
    assert_eq!(parse_i32(b"2147483648"), Err(SensorError::Malformed));
    assert_eq!(parse_i32(b"99999999999999999999"), Err(SensorError::Malformed));
    assert_eq!(parse_i32(b""), Err(SensorError::Malformed));
    assert_eq!(parse_i32(b"-"), Err(SensorError::Malformed));
    assert_eq!(parse_i32(b"4 5"), Err(SensorError::Malformed));
    assert_eq!(parse_i32(b"abc"), Err(SensorError::Malformed));
    assert_eq!(read_temperature(b"garbage"), Err(SensorError::Malformed));
}

#[test]
fn millidegrees_truncate_toward_zero() {
    assert_eq!(celsius_from_millidegrees(45999), 45);
    assert_eq!(celsius_from_millidegrees(-1500), -1);
    assert_eq!(celsius_from_millidegrees(999), 0);
    assert_eq!(read_temperature(b"-40000"), Ok(-40));
}

#[test]
fn gpu_bus_discovery() {
    assert!(is_gpu_bus(b"AMDGPU DM i2c OEM bus"));
    assert!(!is_gpu_bus(b"AMDGPU DM i2c hw bus 0"));
    assert!(!is_gpu_bus(b"OEM"));
    let names = vec![
        Some(b"SMBus PIIX4 adapter".to_vec()),
        None,
        Some(b"AMDGPU DM i2c hw bus 1".to_vec()),
        Some(b"AMDGPU DM i2c OEM bus\n".to_vec()),
    ];
    assert_eq!(find_gpu_bus(&names), Ok(3));
    assert_eq!(find_gpu_bus(&names[..3].to_vec()), Err(SensorError::BusNotFound));
    assert_eq!(device_node_path(b"i2c-12"), b"/dev/i2c-12".to_vec());
}
