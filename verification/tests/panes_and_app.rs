//! Tests for the device-list panel, the selection reconciliation, the
//! emulator picker, and the key-routing discipline of the application core.

use lazyadb::app::{App, Effect, GlobalAction};
use lazyadb::command::Command;
use lazyadb::device::{ConnectionType, Device, DeviceState};
use lazyadb::devices_pane::{DeviceAction, DevicesPane};
use lazyadb::emulator::Avd;
use lazyadb::keymap::{KeyChord, SectionKeymap};
use lazyadb::modal::{EmulatorsModal, Modal};
use lazyadb::msg::Msg;
use lazyadb::pane::Pane;
use lazyadb::roster::reconcile;

fn bytes(s: &str) -> Vec<u8> {
    s.as_bytes().to_vec()
}

fn make_device(serial: &str, conn: ConnectionType) -> Device {
    Device {
        serial: bytes(serial),
        state: DeviceState::Online,
        model: None,
        product: None,
        transport_id: None,
        connection_type: conn,
    }
}

fn make_keymap() -> SectionKeymap {
    let mut keymap = SectionKeymap::new();
    keymap.insert(KeyChord::of_char('j'), bytes("Down"));
    keymap.insert(KeyChord::of_char('k'), bytes("Up"));
    keymap.insert(KeyChord::of_char('d'), bytes("Disconnect"));
    keymap.insert(KeyChord::of_char('r'), bytes("Refresh"));
    keymap.insert(KeyChord::of_char('e'), bytes("OpenEmulators"));
    keymap
}

fn key(c: char) -> Msg {
    Msg::KeyPress(KeyChord::of_char(c))
}

fn pane_with_devices(count: usize) -> DevicesPane {
    let devices: Vec<Device> = (0..count)
        .map(|i| make_device(&format!("DEV{i}"), ConnectionType::Usb))
        .collect();
    DevicesPane::new(devices, make_keymap())
}

#[test]
fn device_action_from_str() {
    assert_eq!(DeviceAction::from_str("Up"), Ok(DeviceAction::Up));
    assert_eq!(DeviceAction::from_str("Down"), Ok(DeviceAction::Down));
    assert_eq!(
        DeviceAction::from_str("Disconnect"),
        Ok(DeviceAction::Disconnect)
    );
    assert_eq!(DeviceAction::from_str("Refresh"), Ok(DeviceAction::Refresh));
    assert_eq!(
        DeviceAction::from_str("OpenEmulators"),
        Ok(DeviceAction::OpenEmulators)
    );
    assert!(DeviceAction::from_str("invalid").is_err());
}

#[test]
fn new_pane_starts_at_index_zero() {
    let pane = pane_with_devices(3);
    assert_eq!(pane.selected_index(), 0);
    assert_eq!(pane.selected_device().unwrap().serial, bytes("DEV0"));
}

#[test]
fn select_next_moves_down() {
    let mut pane = pane_with_devices(3);
    pane.select_next();
    assert_eq!(pane.selected_index(), 1);
    pane.select_next();
    assert_eq!(pane.selected_index(), 2);
}

#[test]
fn select_next_clamps_at_end() {
    let mut pane = pane_with_devices(2);
    pane.select_next();
    pane.select_next();
    pane.select_next();
    assert_eq!(pane.selected_index(), 1);
}

#[test]
fn select_next_on_empty_does_nothing() {
    let mut pane = pane_with_devices(0);
    pane.select_next();
    assert_eq!(pane.selected_index(), 0);
}

#[test]
fn select_previous_moves_up() {
    let mut pane = pane_with_devices(3);
    pane.select_next();
    pane.select_next();
    assert_eq!(pane.selected_index(), 2);
    pane.select_previous();
    assert_eq!(pane.selected_index(), 1);
}

#[test]
fn select_previous_clamps_at_zero() {
    let mut pane = pane_with_devices(3);
    pane.select_previous();
    assert_eq!(pane.selected_index(), 0);
}

#[test]
fn keypress_down_moves_selection() {
    let mut pane = pane_with_devices(3);
    let cmds = pane.update(&key('j'));
    assert_eq!(pane.selected_index(), 1);
    assert!(cmds.iter().any(|c| matches!(c, Command::DeviceSelected(_))));
}

#[test]
fn keypress_up_moves_selection() {
    let mut pane = pane_with_devices(3);
    pane.select_next();
    pane.select_next();
    pane.selection_changed_command();
    assert_eq!(pane.last_selected_serial(), &Some(bytes("DEV2")));
    let cmds = pane.update(&key('k'));
    assert_eq!(pane.selected_index(), 1);
    assert!(cmds.iter().any(|c| matches!(c, Command::DeviceSelected(_))));
}

#[test]
fn unknown_key_returns_no_commands() {
    let mut pane = pane_with_devices(3);
    let cmds = pane.update(&key('z'));
    assert!(cmds.is_empty());
}

#[test]
fn refresh_key_returns_refresh_command() {
    let mut pane = pane_with_devices(1);
    let cmds = pane.update(&key('r'));
    assert!(cmds.iter().any(|c| matches!(c, Command::RefreshDevices)));
}

#[test]
fn open_emulators_key_returns_command() {
    let mut pane = pane_with_devices(1);
    let cmds = pane.update(&key('e'));
    assert!(cmds.iter().any(|c| matches!(c, Command::OpenEmulatorsModal)));
}

#[test]
fn disconnect_emulator_returns_kill_command() {
    let devices = vec![make_device("emulator-5554", ConnectionType::Emulator)];
    let mut pane = DevicesPane::new(devices, make_keymap());
    let cmds = pane.update(&key('d'));
    assert!(cmds
        .iter()
        .any(|c| matches!(c, Command::KillEmulator(s) if s == &bytes("emulator-5554"))));
}

#[test]
fn disconnect_tcp_returns_disconnect_command() {
    let devices = vec![make_device("192.168.1.1:5555", ConnectionType::Tcp)];
    let mut pane = DevicesPane::new(devices, make_keymap());
    let cmds = pane.update(&key('d'));
    assert!(cmds
        .iter()
        .any(|c| matches!(c, Command::DisconnectDevice(s) if s == &bytes("192.168.1.1:5555"))));
}

#[test]
fn disconnect_usb_returns_no_command() {
    let devices = vec![make_device("USB001", ConnectionType::Usb)];
    let mut pane = DevicesPane::new(devices, make_keymap());
    let cmds = pane.update(&key('d'));
    assert!(cmds.is_empty());
}

#[test]
fn devices_updated_replaces_list() {
    let mut pane = pane_with_devices(2);
    pane.select_next();
    pane.selection_changed_command();
    assert_eq!(pane.last_selected_serial(), &Some(bytes("DEV1")));

    let new_devices = vec![
        make_device("NEW0", ConnectionType::Usb),
        make_device("NEW1", ConnectionType::Usb),
        make_device("NEW2", ConnectionType::Usb),
    ];
    pane.update(&Msg::DevicesUpdated(new_devices));

    assert_eq!(pane.devices().len(), 3);
    assert_eq!(pane.selected_index(), 1);
}

#[test]
fn devices_updated_clamps_selection() {
    let mut pane = pane_with_devices(5);
    pane.select_next();
    pane.select_next();
    pane.select_next();
    pane.select_next();
    pane.selection_changed_command();
    assert_eq!(pane.last_selected_serial(), &Some(bytes("DEV4")));

    let new_devices = vec![make_device("A", ConnectionType::Usb)];
    pane.update(&Msg::DevicesUpdated(new_devices));

    assert_eq!(pane.selected_index(), 0);
}

#[test]
fn devices_updated_to_empty_resets_selection() {
    let mut pane = pane_with_devices(3);
    pane.select_next();
    pane.select_next();
    pane.selection_changed_command();
    assert_eq!(pane.last_selected_serial(), &Some(bytes("DEV2")));

    pane.update(&Msg::DevicesUpdated(vec![]));

    assert_eq!(pane.selected_index(), 0);
    assert!(pane.devices().is_empty());
}

#[test]
fn tick_before_interval_returns_no_commands() {
    let mut pane = pane_with_devices(1);
    let cmds = pane.update(&Msg::Tick(100));
    assert!(cmds.is_empty());
}

#[test]
fn tick_after_interval_returns_refresh() {
    let mut pane = pane_with_devices(1);
    let cmds = pane.update(&Msg::Tick(2100));
    assert!(cmds.iter().any(|c| matches!(c, Command::RefreshDevices)));
}

#[test]
fn selection_emits_only_on_change() {
    let mut pane = pane_with_devices(3);
    // First move emits.
    let cmds = pane.update(&key('j'));
    assert!(!cmds.is_empty());

    let prev_serial = pane.last_selected_serial().clone();
    let cmds = pane.update(&key('k'));
    // Moved back to the top, so the serial changed again.
    assert_ne!(pane.last_selected_serial(), &prev_serial);
    assert!(!cmds.is_empty());
}

#[test]
fn devices_accessor_returns_slice() {
    let pane = pane_with_devices(3);
    assert_eq!(pane.devices().len(), 3);
    assert_eq!(pane.devices()[0].serial, bytes("DEV0"));
}

#[test]
fn empty_roster_selects_zero_then_first_device_fires_once() {
    // Empty list: the cursor sits at zero and nothing is selected.
    let mut pane = pane_with_devices(0);
    assert_eq!(pane.selected_index(), 0);
    assert!(pane.selected_device().is_none());

    // One device appears: the selection lands on it and exactly one
    // selection-changed command fires.
    let cmds = pane.update(&Msg::DevicesUpdated(vec![make_device(
        "FIRST",
        ConnectionType::Usb,
    )]));
    assert_eq!(pane.selected_index(), 0);
    assert_eq!(cmds.len(), 1);
    assert!(matches!(&cmds[0], Command::DeviceSelected(Some(d)) if d.serial == bytes("FIRST")));

    // The identical roster again: no further command.
    let cmds = pane.update(&Msg::DevicesUpdated(vec![make_device(
        "FIRST",
        ConnectionType::Usb,
    )]));
    assert!(cmds.is_empty());
}

#[test]
fn selected_device_disappearing_reclamps_and_fires() {
    let mut pane = pane_with_devices(3);
    pane.select_next();
    pane.select_next();
    pane.selection_changed_command();
    assert_eq!(pane.last_selected_serial(), &Some(bytes("DEV2")));

    // The selected device is gone from the refreshed roster.
    let cmds = pane.update(&Msg::DevicesUpdated(vec![make_device(
        "OTHER",
        ConnectionType::Usb,
    )]));
    assert_eq!(pane.selected_index(), 0);
    assert_eq!(cmds.len(), 1);
    assert!(matches!(&cmds[0], Command::DeviceSelected(Some(d)) if d.serial == bytes("OTHER")));

    // Gone entirely: the cursor stays at zero and the change fires again.
    let cmds = pane.update(&Msg::DevicesUpdated(vec![]));
    assert_eq!(pane.selected_index(), 0);
    assert_eq!(cmds.len(), 1);
    assert!(matches!(&cmds[0], Command::DeviceSelected(None)));
}

#[test]
fn reconcile_clamps_and_compares_keys() {
    let keys = vec![bytes("a"), bytes("b")];
    // Cursor past the end reclamps to the last entry.
    let (i, changed) = reconcile(&keys, 5, &Some(bytes("b")));
    assert_eq!(i, 1);
    assert!(!changed);
    // Same index, different key underneath: a change.
    let (i, changed) = reconcile(&keys, 0, &Some(bytes("z")));
    assert_eq!(i, 0);
    assert!(changed);
    // Empty list: index zero, and losing a selection is a change.
    let empty: Vec<Vec<u8>> = vec![];
    let (i, changed) = reconcile(&empty, 3, &Some(bytes("a")));
    assert_eq!(i, 0);
    assert!(changed);
}

fn emulator_keymap() -> SectionKeymap {
    let mut keymap = SectionKeymap::new();
    keymap.insert(KeyChord::of_char('j'), bytes("Down"));
    keymap.insert(KeyChord::of_char('k'), bytes("Up"));
    keymap.insert(KeyChord::of_char('x'), bytes("Kill"));
    keymap.insert(KeyChord::of_char('\r'), bytes("Select"));
    keymap
}

#[test]
fn picker_kill_targets_the_running_serial() {
    let avds = vec![Avd {
        name: bytes("Pixel_4"),
        running_serial: Some(bytes("emulator-5554")),
    }];
    let mut modal = EmulatorsModal::new(avds, emulator_keymap());
    let cmds = modal.handle_key(KeyChord::of_char('x'));
    assert_eq!(cmds.len(), 1);
    assert!(matches!(&cmds[0], Command::KillEmulator(s) if s == &bytes("emulator-5554")));
}

#[test]
fn picker_select_starts_a_stopped_image() {
    let avds = vec![Avd {
        name: bytes("Pixel_4"),
        running_serial: None,
    }];
    let mut modal = EmulatorsModal::new(avds, emulator_keymap());
    let cmds = modal.handle_key(KeyChord::of_char('\r'));
    assert_eq!(cmds.len(), 1);
    assert!(matches!(&cmds[0], Command::StartEmulator(n) if n == &bytes("Pixel_4")));
}

#[test]
fn picker_select_on_running_image_closes_and_focuses_content() {
    let avds = vec![Avd {
        name: bytes("Pixel_4"),
        running_serial: Some(bytes("emulator-5554")),
    }];
    let mut modal = EmulatorsModal::new(avds, emulator_keymap());
    let cmds = modal.handle_key(KeyChord::of_char('\r'));
    assert_eq!(cmds.len(), 2);
    assert!(matches!(cmds[0], Command::CloseEmulatorsModal));
    assert!(matches!(cmds[1], Command::Focus(Pane::Content)));
}

#[test]
fn picker_cursor_clamps_both_ways() {
    let avds = vec![
        Avd { name: bytes("A"), running_serial: None },
        Avd { name: bytes("B"), running_serial: None },
    ];
    let mut modal = EmulatorsModal::new(avds, emulator_keymap());
    modal.handle_key(KeyChord::of_char('k'));
    assert_eq!(modal.selected_index(), 0);
    modal.handle_key(KeyChord::of_char('j'));
    modal.handle_key(KeyChord::of_char('j'));
    modal.handle_key(KeyChord::of_char('j'));
    assert_eq!(modal.selected_index(), 1);
}

fn global_keymap() -> SectionKeymap {
    let mut keymap = SectionKeymap::new();
    keymap.insert(KeyChord::of_char('q'), bytes("Quit"));
    keymap.insert(KeyChord::of_char('\t'), bytes("CycleFocus"));
    keymap.insert(KeyChord::of_char('?'), bytes("ToggleHelp"));
    keymap.insert(KeyChord { code: 27, mods: 0 }, bytes("CloseModal"));
    keymap
}

fn make_app(device_count: usize) -> App {
    let devices: Vec<Device> = (0..device_count)
        .map(|i| make_device(&format!("DEV{i}"), ConnectionType::Usb))
        .collect();
    App::new(devices, global_keymap(), make_keymap(), emulator_keymap())
}

#[test]
fn global_action_names() {
    assert_eq!(GlobalAction::from_str("Quit"), Some(GlobalAction::Quit));
    assert_eq!(
        GlobalAction::from_str("CycleFocus"),
        Some(GlobalAction::CycleFocus)
    );
    assert_eq!(
        GlobalAction::from_str("CycleFocusBackwards"),
        Some(GlobalAction::CycleFocusBackwards)
    );
    assert_eq!(
        GlobalAction::from_str("ToggleHelp"),
        Some(GlobalAction::ToggleHelp)
    );
    assert_eq!(
        GlobalAction::from_str("CloseModal"),
        Some(GlobalAction::CloseModal)
    );
    assert_eq!(GlobalAction::from_str("Sideways"), None);
}

#[test]
fn focus_cycles_around_the_ring() {
    let mut app = make_app(1);
    assert_eq!(app.focus(), Pane::DeviceList);
    app.handle_key(KeyChord::of_char('\t'));
    assert_eq!(app.focus(), Pane::Emulators);
    app.handle_key(KeyChord::of_char('\t'));
    assert_eq!(app.focus(), Pane::Content);
    app.handle_key(KeyChord::of_char('\t'));
    assert_eq!(app.focus(), Pane::DeviceList);
}

#[test]
fn help_modal_captures_all_input() {
    let mut app = make_app(3);
    // A movement key reaches the device panel while no modal is open.
    let cmds = app.handle_key(KeyChord::of_char('j'));
    assert!(!cmds.is_empty());
    assert_eq!(app.devices_pane().selected_index(), 1);

    // Open the help overlay.
    app.handle_key(KeyChord::of_char('?'));
    assert!(matches!(app.modal(), Some(Modal::Help(_))));

    // Movement, refresh and focus keys are all swallowed now.
    let cmds = app.handle_key(KeyChord::of_char('j'));
    assert!(cmds.is_empty());
    let cmds = app.handle_key(KeyChord::of_char('r'));
    assert!(cmds.is_empty());
    let cmds = app.handle_key(KeyChord::of_char('\t'));
    assert!(cmds.is_empty());
    assert_eq!(app.devices_pane().selected_index(), 1);
    assert_eq!(app.focus(), Pane::DeviceList);
    assert!(matches!(app.modal(), Some(Modal::Help(_))));

    // Toggling help again closes it.
    app.handle_key(KeyChord::of_char('?'));
    assert!(app.modal().is_none());
}

#[test]
fn quit_works_even_under_a_modal() {
    let mut app = make_app(1);
    app.handle_key(KeyChord::of_char('?'));
    assert!(app.running());
    app.handle_key(KeyChord::of_char('q'));
    assert!(!app.running());
}

#[test]
fn picker_owns_keys_while_open() {
    let mut app = make_app(1);
    let avds = vec![Avd {
        name: bytes("Pixel_4"),
        running_serial: None,
    }];
    app.open_emulators_modal(avds);
    assert!(matches!(app.modal(), Some(Modal::Emulators(_))));

    // The picker's select key acts on the picker, not on the device panel.
    let cmds = app.handle_key(KeyChord::of_char('\r'));
    assert_eq!(cmds.len(), 1);
    assert!(matches!(&cmds[0], Command::StartEmulator(n) if n == &bytes("Pixel_4")));
    assert_eq!(app.devices_pane().selected_index(), 0);

    // Escape closes it.
    app.handle_key(KeyChord { code: 27, mods: 0 });
    assert!(app.modal().is_none());
}

#[test]
fn commands_become_effects() {
    let mut app = make_app(2);
    assert!(matches!(
        app.apply_command(Command::RefreshDevices),
        Some(Effect::RefreshDevices)
    ));
    assert!(matches!(
        app.apply_command(Command::StartEmulator(bytes("Pixel_4"))),
        Some(Effect::StartEmulator(n)) if n == bytes("Pixel_4")
    ));
    assert!(matches!(
        app.apply_command(Command::OpenEmulatorsModal),
        Some(Effect::QueryEmulators)
    ));
    // A telemetry refresh resolves its serial against the roster.
    assert!(matches!(
        app.apply_command(Command::RefreshDeviceInfo(bytes("DEV1"))),
        Some(Effect::FetchDeviceInfo(d)) if d.serial == bytes("DEV1")
    ));
    // A serial that is gone is dropped.
    assert!(app
        .apply_command(Command::RefreshDeviceInfo(bytes("GONE")))
        .is_none());
    // Focus commands act on the core directly.
    assert!(app.apply_command(Command::Focus(Pane::Content)).is_none());
    assert_eq!(app.focus(), Pane::Content);
}

#[test]
fn dispatch_broadcasts_to_both_panels() {
    let mut app = make_app(0);
    // A fresh roster reaches the device panel; its selection command is
    // collected from the broadcast.
    let cmds = app.dispatch(&Msg::DevicesUpdated(vec![make_device(
        "FIRST",
        ConnectionType::Usb,
    )]));
    assert_eq!(cmds.len(), 1);
    assert!(matches!(&cmds[0], Command::DeviceSelected(Some(d)) if d.serial == bytes("FIRST")));

    // The selection notice then reaches the content panel, which requests
    // telemetry for the new serial.
    let cmds = app.dispatch(&Msg::DeviceSelected(Some(make_device(
        "FIRST",
        ConnectionType::Usb,
    ))));
    assert_eq!(cmds.len(), 1);
    assert!(matches!(&cmds[0], Command::RefreshDeviceInfo(s) if s == &bytes("FIRST")));
}
