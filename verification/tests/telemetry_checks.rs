//! Tests for the telemetry parsers, the kilobyte-to-gigabyte figures, and
//! the assembly of the full record.

use lazyadb::device::{ConnectionType, Device, DeviceState};
use lazyadb::telemetry::{
    assemble_device_info, format_tenths, gb_tenths_of_kb, parse_battery, parse_getprop,
    parse_prop_line, parse_ram, parse_screen_density, parse_screen_size, parse_storage,
    parse_wifi, GetpropResult,
};

fn bytes(s: &str) -> Vec<u8> {
    s.as_bytes().to_vec()
}

#[test]
fn test_parse_getprop() {
    let output = "\
[ro.build.version.release]: [14]
[ro.build.version.sdk]: [34]
[ro.product.cpu.abi]: [arm64-v8a]
[persist.sys.locale]: [en-US]
[ro.product.model]: [Pixel 7]
[some.other.prop]: [value]
";
    let result = parse_getprop(output);
    assert_eq!(result.android_version, bytes("14"));
    assert_eq!(result.api_level, bytes("34"));
    assert_eq!(result.abi, bytes("arm64-v8a"));
    assert_eq!(result.locale, bytes("en-US"));
    assert_eq!(result.model, bytes("Pixel 7"));
}

#[test]
fn getprop_first_non_empty_value_wins() {
    let output = "\
[ro.product.model]: []
[ro.product.model]: [First]
[ro.product.model]: [Second]
[ro.product.locale]: [en-GB]
[persist.sys.locale]: [de-DE]
";
    let result = parse_getprop(output);
    assert_eq!(result.model, bytes("First"));
    // The two locale keys feed one field; the first populated line wins.
    assert_eq!(result.locale, bytes("en-GB"));
}

#[test]
fn prop_line_shape_is_required() {
    assert_eq!(
        parse_prop_line(b"[key]: [value]"),
        Some((bytes("key"), bytes("value")))
    );
    assert_eq!(parse_prop_line(b"key: value"), None);
    assert_eq!(parse_prop_line(b"[key]: value"), None);
    assert_eq!(parse_prop_line(b"[key] [value]"), None);
}

#[test]
fn test_parse_battery() {
    let output = "\
Current Battery Service state:
  AC powered: false
  USB powered: true
  Wireless powered: false
  Max charging current: 500000
  status: 2
  health: 2
  present: true
  level: 72
  plugged: 2
  temperature: 250
";
    let info = parse_battery(output).unwrap();
    assert_eq!(info.level, 72);
    assert_eq!(info.status, bytes("charging (USB)"));
}

#[test]
fn test_parse_battery_discharging() {
    let output = "  status: 3\n  level: 45\n  plugged: 0\n";
    let info = parse_battery(output).unwrap();
    assert_eq!(info.level, 45);
    assert_eq!(info.status, bytes("discharging"));
}

#[test]
fn battery_unrecognized_status_reads_unknown() {
    let output = "  status: 9\n  level: 10\n";
    let info = parse_battery(output).unwrap();
    assert_eq!(info.status, bytes("unknown"));
}

#[test]
fn battery_plug_types_by_code() {
    let ac = parse_battery("status: 2\nlevel: 5\nplugged: 1\n").unwrap();
    assert_eq!(ac.status, bytes("charging (AC)"));
    let wireless = parse_battery("status: 2\nlevel: 5\nplugged: 4\n").unwrap();
    assert_eq!(wireless.status, bytes("charging (Wireless)"));
    let odd = parse_battery("status: 2\nlevel: 5\nplugged: 7\n").unwrap();
    assert_eq!(odd.status, bytes("charging (USB)"));
    let full = parse_battery("status: 5\nlevel: 100\n").unwrap();
    assert_eq!(full.status, bytes("full"));
    let not_charging = parse_battery("status: 4\nlevel: 50\n").unwrap();
    assert_eq!(not_charging.status, bytes("not charging"));
}

#[test]
fn battery_requires_a_level_line() {
    assert!(parse_battery("status: 2\nplugged: 2\n").is_none());
    assert!(parse_battery("").is_none());
}

#[test]
fn test_parse_storage() {
    let output = "\
Filesystem     1K-blocks    Used Available Use% Mounted on
/dev/block/dm-0 57542652 23456789 34085863  41% /data
";
    let info = parse_storage(output).unwrap();
    assert!((info.total_kb as f64 / 1_048_576.0 - 54.87).abs() < 0.1);
    assert!((info.used_kb as f64 / 1_048_576.0 - 22.37).abs() < 0.1);
}

#[test]
fn storage_malformed_number_yields_nothing() {
    let output = "\
Filesystem     1K-blocks    Used Available Use% Mounted on
/dev/block/dm-0 abc 23456789 34085863  41% /data
";
    assert!(parse_storage(output).is_none());
    assert!(parse_storage("").is_none());
}

#[test]
fn test_parse_ram() {
    let output = "\
MemTotal:        7890000 kB
MemFree:          234000 kB
MemAvailable:    3456000 kB
Buffers:          123000 kB
";
    let info = parse_ram(output).unwrap();
    assert!((info.total_kb as f64 / 1_048_576.0 - 7.53).abs() < 0.1);
    assert!((info.used_kb as f64 / 1_048_576.0 - 4.23).abs() < 0.1);
}

#[test]
fn ram_requires_total_and_available() {
    assert!(parse_ram("MemTotal: 100 kB\n").is_none());
    assert!(parse_ram("MemAvailable: 100 kB\n").is_none());
}

#[test]
fn test_parse_screen_size() {
    assert_eq!(
        parse_screen_size("Physical size: 1080x2400\n"),
        Some(bytes("1080\u{00d7}2400"))
    );
}

#[test]
fn test_parse_screen_density() {
    assert_eq!(
        parse_screen_density("Physical density: 420\n"),
        Some(bytes("420dpi"))
    );
}

#[test]
fn wifi_extracts_name_and_address() {
    let output = "\
some other line
mWifiInfo SSID: \"MyNetwork\", BSSID: 02:00:00:00:00:00, IP: 192.168.1.23/24, state: COMPLETED
";
    let info = parse_wifi(output).unwrap();
    assert_eq!(info.ssid, bytes("MyNetwork"));
    assert_eq!(info.ip, bytes("192.168.1.23"));
}

#[test]
fn wifi_sentinels_degrade_to_placeholders() {
    let output = "mWifiInfo SSID: \"<unknown ssid>\", IP: 0.0.0.0/0\n";
    let info = parse_wifi(output).unwrap();
    assert_eq!(info.ssid, bytes("N/A"));
    assert_eq!(info.ip, bytes("N/A"));
    let empty = parse_wifi("").unwrap();
    assert_eq!(empty.ssid, bytes("N/A"));
    assert_eq!(empty.ip, bytes("N/A"));
}

#[test]
fn gb_tenths_exact_values() {
    assert_eq!(gb_tenths_of_kb(0), 0);
    assert_eq!(gb_tenths_of_kb(1_048_576), 10);
    assert_eq!(gb_tenths_of_kb(57_542_652), 548);
    assert_eq!(gb_tenths_of_kb(23_456_789), 223);
    assert_eq!(format_tenths(548), bytes("54.8"));
    assert_eq!(format_tenths(10), bytes("1.0"));
    assert_eq!(format_tenths(7), bytes("0.7"));
}

#[test]
fn gb_tenths_is_monotonic_in_samples() {
    let samples: Vec<u64> = vec![0, 1, 1000, 1_048_575, 1_048_576, 23_456_789, u64::MAX];
    for w in samples.windows(2) {
        assert!(gb_tenths_of_kb(w[0]) <= gb_tenths_of_kb(w[1]));
    }
}

#[test]
fn assembly_fills_placeholders_and_falls_back_to_display_name() {
    let device = Device {
        serial: bytes("ABC123"),
        state: DeviceState::Online,
        model: Some(bytes("Pixel_3")),
        product: None,
        transport_id: None,
        connection_type: ConnectionType::Usb,
    };
    let props = GetpropResult {
        model: Vec::new(),
        android_version: bytes("14"),
        api_level: Vec::new(),
        abi: Vec::new(),
        locale: Vec::new(),
    };
    let info = assemble_device_info(&device, props, None, None, None, None, None, None);
    assert_eq!(info.serial, bytes("ABC123"));
    assert_eq!(info.model, bytes("Pixel 3"));
    assert_eq!(info.android_version, bytes("14"));
    assert_eq!(info.api_level, bytes("N/A"));
    assert_eq!(info.abi, bytes("N/A"));
    assert_eq!(info.locale, bytes("N/A"));
    assert_eq!(info.state, bytes("device"));
    assert_eq!(info.connection_type, bytes("USB"));
    assert!(info.battery.is_none());
    assert!(info.screen.is_none());
}

#[test]
fn assembly_combines_screen_reports() {
    let device = Device {
        serial: bytes("X"),
        state: DeviceState::Online,
        model: None,
        product: None,
        transport_id: None,
        connection_type: ConnectionType::Emulator,
    };
    let props = GetpropResult {
        model: Vec::new(),
        android_version: Vec::new(),
        api_level: Vec::new(),
        abi: Vec::new(),
        locale: Vec::new(),
    };
    let info = assemble_device_info(
        &device,
        props,
        None,
        None,
        None,
        Some(bytes("1080\u{00d7}2400")),
        None,
        None,
    );
    assert_eq!(info.connection_type, bytes("Emulator"));
    let screen = info.screen.unwrap();
    assert_eq!(screen.resolution, bytes("1080\u{00d7}2400"));
    assert_eq!(screen.density, bytes("N/A"));
}
