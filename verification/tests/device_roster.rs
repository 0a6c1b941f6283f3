//! Tests for the roster listing parser, the emulator-image parser, and the
//! declared/running join.

use lazyadb::client::{AdbClient, RunningEmulator};
use lazyadb::device::{parse_device_list, ConnectionType, Device, DeviceState};
use lazyadb::emulator::{parse_avd_list, Avd};

fn bytes(s: &str) -> Vec<u8> {
    s.as_bytes().to_vec()
}

#[test]
fn parse_multi_device_output() {
    let output = "\
List of devices attached
ABCDEF1234     device usb:1-1 product:blueline model:Pixel_3 transport_id:1
192.168.1.100:5555 device product:generic model:SDK_Phone transport_id:2
emulator-5554  device product:sdk_phone model:sdk_phone transport_id:3

";
    let devices = parse_device_list(output);
    assert_eq!(devices.len(), 3);

    assert_eq!(devices[0].serial, bytes("ABCDEF1234"));
    assert_eq!(devices[0].state, DeviceState::Online);
    assert_eq!(devices[0].model, Some(bytes("Pixel_3")));
    assert_eq!(devices[0].connection_type, ConnectionType::Usb);
    assert_eq!(devices[0].display_name(), bytes("Pixel 3"));

    assert_eq!(devices[1].serial, bytes("192.168.1.100:5555"));
    assert_eq!(devices[1].connection_type, ConnectionType::Tcp);
    assert_eq!(devices[1].model, Some(bytes("SDK_Phone")));

    assert_eq!(devices[2].serial, bytes("emulator-5554"));
    assert_eq!(devices[2].connection_type, ConnectionType::Emulator);
}

#[test]
fn parse_empty_output() {
    let output = "List of devices attached\n\n";
    let devices = parse_device_list(output);
    assert!(devices.is_empty());
}

#[test]
fn parse_offline_and_unauthorized() {
    let output = "\
List of devices attached
OFFLINE123     offline transport_id:1
UNAUTH456      unauthorized transport_id:2
";
    let devices = parse_device_list(output);
    assert_eq!(devices.len(), 2);
    assert_eq!(devices[0].state, DeviceState::Offline);
    assert_eq!(devices[1].state, DeviceState::Unauthorized);
}

#[test]
fn parse_unknown_state() {
    let output = "List of devices attached\nDEV001 recovery transport_id:1\n";
    let devices = parse_device_list(output);
    assert_eq!(devices.len(), 1);
    assert_eq!(devices[0].state, DeviceState::Unknown(bytes("recovery")));
}

#[test]
fn display_name_falls_back_to_serial() {
    let device = Device {
        serial: bytes("ABC123"),
        state: DeviceState::Online,
        model: None,
        product: None,
        transport_id: None,
        connection_type: ConnectionType::Usb,
    };
    assert_eq!(device.display_name(), bytes("ABC123"));
}

#[test]
fn connection_type_detection() {
    let output = "\
List of devices attached
USB_DEVICE     device
192.168.1.1:5555 device
emulator-5554  device
";
    let devices = parse_device_list(output);
    assert_eq!(devices[0].connection_type, ConnectionType::Usb);
    assert_eq!(devices[1].connection_type, ConnectionType::Tcp);
    assert_eq!(devices[2].connection_type, ConnectionType::Emulator);
}

#[test]
fn parse_avd_list_basic() {
    let output = "Pixel_4_API_30\nPixel_6_Pro_API_33\n";
    let avds = parse_avd_list(output);
    assert_eq!(avds, vec![bytes("Pixel_4_API_30"), bytes("Pixel_6_Pro_API_33")]);
}

#[test]
fn parse_avd_list_empty() {
    let avds = parse_avd_list("");
    assert!(avds.is_empty());
}

#[test]
fn parse_avd_list_with_blank_lines() {
    let output = "\n  Pixel_4_API_30  \n\n  Pixel_6_Pro_API_33\n\n";
    let avds = parse_avd_list(output);
    assert_eq!(avds, vec![bytes("Pixel_4_API_30"), bytes("Pixel_6_Pro_API_33")]);
}

#[test]
fn display_name_replaces_underscores() {
    let avd = Avd {
        name: bytes("Pixel_4_API_30"),
        running_serial: None,
    };
    assert_eq!(avd.display_name(), bytes("Pixel 4 API 30"));
}

#[test]
fn is_running_checks_serial() {
    let stopped = Avd {
        name: bytes("Test"),
        running_serial: None,
    };
    assert!(!stopped.is_running());

    let running = Avd {
        name: bytes("Test"),
        running_serial: Some(bytes("emulator-5554")),
    };
    assert!(running.is_running());
}

#[test]
fn running_emulator_serials_filters_by_kind() {
    let devices = vec![
        Device {
            serial: bytes("USB001"),
            state: DeviceState::Online,
            model: None,
            product: None,
            transport_id: None,
            connection_type: ConnectionType::Usb,
        },
        Device {
            serial: bytes("emulator-5554"),
            state: DeviceState::Online,
            model: None,
            product: None,
            transport_id: None,
            connection_type: ConnectionType::Emulator,
        },
    ];
    let serials = lazyadb::client::running_emulator_serials(&devices);
    assert_eq!(serials, vec![bytes("emulator-5554")]);
}

#[test]
fn avds_with_status_joins_declared_and_running() {
    let client = AdbClient::new(bytes("adb"), bytes("emulator"));
    let declared = vec![bytes("Pixel_4"), bytes("Tablet")];
    let running = vec![RunningEmulator {
        serial: bytes("emulator-5554"),
        name: bytes("Pixel_4"),
    }];
    let avds = client.avds_with_status(&declared, &running);
    assert_eq!(avds.len(), 2);
    assert_eq!(avds[0].name, bytes("Pixel_4"));
    assert_eq!(avds[0].running_serial, Some(bytes("emulator-5554")));
    assert_eq!(avds[1].name, bytes("Tablet"));
    assert_eq!(avds[1].running_serial, None);
}

#[test]
fn avds_with_status_never_duplicates_a_declared_name() {
    // An image declared and also observed running is one entry, not two.
    let client = AdbClient::new(bytes("adb"), bytes("emulator"));
    let declared = vec![bytes("Pixel_4")];
    let running = vec![
        RunningEmulator {
            serial: bytes("emulator-5554"),
            name: bytes("Pixel_4"),
        },
        RunningEmulator {
            serial: bytes("emulator-5556"),
            name: bytes("Sideloaded"),
        },
    ];
    let avds = client.avds_with_status(&declared, &running);
    assert_eq!(avds.len(), 2);
    assert_eq!(avds[0].name, bytes("Pixel_4"));
    assert_eq!(avds[0].running_serial, Some(bytes("emulator-5554")));
    assert_eq!(avds[1].name, bytes("Sideloaded"));
    assert_eq!(avds[1].running_serial, Some(bytes("emulator-5556")));
    for i in 0..avds.len() {
        for j in 0..avds.len() {
            if i != j {
                assert_ne!(avds[i].name, avds[j].name);
            }
        }
    }
}

#[test]
fn state_labels_match_the_listing_words() {
    assert_eq!(DeviceState::Online.label(), bytes("device"));
    assert_eq!(DeviceState::Offline.label(), bytes("offline"));
    assert_eq!(DeviceState::Unauthorized.label(), bytes("unauthorized"));
    assert_eq!(DeviceState::Unknown(bytes("sideload")).label(), bytes("sideload"));
}
