use lights_out::msi::{
    cpu_status_command, disable_led_zones, fan_mode_commands, feature_report_request,
    lcd_disable_command, led_zone_modes, led_zone_offsets, CMD_CPU_STATUS, CMD_FAN_MODE_1,
    CMD_FAN_MODE_2, CMD_PREFIX, FEATURE_REPORT_ID, HID_REPORT_LEN, MAX_DATA_LEN,
};
use lights_out::FanMode;

const FAN_OFFSETS: [usize; 5] = [2, 10, 18, 26, 34];
const LED_OFFSETS: [usize; 17] = [
    1, 11, 21, 31, 42, 53, 74, 84, 94, 104, 114, 124, 134, 144, 154, 164, 174,
];

fn all_modes() -> Vec<(FanMode, u8)> {
    vec![
        (FanMode::Silent, 0),
        (FanMode::Balance, 1),
        (FanMode::Game, 2),
        (FanMode::Default, 4),
        (FanMode::Smart, 5),
    ]
}

#[test]
fn fan_mode_codes_keep_the_gap_at_three() {
    for (mode, code) in all_modes() {
        assert_eq!(mode.code(), code);
        assert_eq!(FanMode::from_code(code), Some(mode));
    }
    assert_eq!(FanMode::from_code(3), None);
    assert_eq!(FanMode::from_code(6), None);
    assert_eq!(FanMode::from_code(255), None);
}

#[test]
fn fan_mode_handshake_carries_the_code_at_every_zone() {
    for (mode, code) in all_modes() {
        let (first, second) = fan_mode_commands(mode);
        for (buf, sel) in [(&first, CMD_FAN_MODE_1), (&second, CMD_FAN_MODE_2)] {
            assert_eq!(buf.len(), HID_REPORT_LEN);
            assert_eq!(buf[0], CMD_PREFIX);
            assert_eq!(buf[1], sel);
            for i in 2..HID_REPORT_LEN {
                let expected = if FAN_OFFSETS.contains(&i) { code } else { 0 };
                assert_eq!(buf[i], expected, "mode {:?} byte {}", mode, i);
            }
        }
        assert_eq!(first[1], 0x40);
        assert_eq!(second[1], 0x41);
        assert_eq!(&first[2..], &second[2..]);
    }
}

#[test]
fn cpu_status_report_layout() {
    let buf = cpu_status_command(45);
    assert_eq!(buf.len(), 65);
    assert_eq!(&buf[..6], &[0xD0, CMD_CPU_STATUS, 0xB8, 0x0B, 45, 0]);
    assert!(buf[6..].iter().all(|&b| b == 0));
    let neg = cpu_status_command(-40);
    assert_eq!(neg[4], 0xD8);
    assert_eq!(neg[5], 0xFF);
    let big = cpu_status_command(300);
    assert_eq!(big[4], 0x2C);
    assert_eq!(big[5], 0x01);
}

#[test]
fn cpu_status_encoding_round_trips_and_repeats() {
    for t in -40..=125 {
        let a = cpu_status_command(t);
        let b = cpu_status_command(t);
        assert_eq!(a, b);
        let decoded = i16::from_le_bytes([a[4], a[5]]);
        assert_eq!(decoded as i32, t);
    }
}

#[test]
fn feature_report_request_has_report_id() {
    let buf = feature_report_request();
    assert_eq!(buf.len(), MAX_DATA_LEN);
    assert_eq!(buf[0], FEATURE_REPORT_ID);
    assert!(buf[1..].iter().all(|&b| b == 0));
}

#[test]
fn disabling_zones_clears_only_led_offsets() {
    let mut report: Vec<u8> = (0..MAX_DATA_LEN).map(|i| (i % 200) as u8 + 1).collect();
    let before = report.clone();
    disable_led_zones(&mut report);
    assert_eq!(report.len(), MAX_DATA_LEN);
    for i in 0..MAX_DATA_LEN {
        if LED_OFFSETS.contains(&i) {
            assert_eq!(report[i], 0, "offset {}", i);
        } else {
            assert_eq!(report[i], before[i], "offset {}", i);
        }
    }
}

#[test]
fn disabling_zones_skips_offsets_past_a_short_report() {
    let mut report = vec![7u8; 50];
    disable_led_zones(&mut report);
    assert_eq!(report.len(), 50);
    for i in 0..50 {
        let expected = if [1, 11, 21, 31, 42].contains(&i) { 0 } else { 7 };
        assert_eq!(report[i], expected);
    }
}

#[test]
fn led_zone_table_and_dump() {
    assert_eq!(led_zone_offsets(), LED_OFFSETS.to_vec());
    let report: Vec<u8> = (0..MAX_DATA_LEN).map(|i| i as u8).collect();
    let modes = led_zone_modes(&report);
    let expected: Vec<(usize, u8)> = LED_OFFSETS.iter().map(|&o| (o, o as u8)).collect();
    assert_eq!(modes, expected);
    let short = vec![9u8; 30];
    assert_eq!(led_zone_modes(&short), vec![(1, 9), (11, 9), (21, 9)]);
}

#[test]
fn lcd_disable_command_bytes() {
    let buf = lcd_disable_command();
    assert_eq!(buf.len(), 65);
    assert_eq!(buf[0], 0xD0);
    assert_eq!(buf[1], 0x7F);
    assert!(buf[2..].iter().all(|&b| b == 0));
}
