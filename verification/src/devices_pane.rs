//! The device-list panel: the roster it shows, its selection cursor, and
//! its reaction to every message.
//!
//! The panel owns the device roster.  Selection moves clamp to the list
//! bounds; a roster replacement reclamps the cursor and emits a
//! selection-changed command exactly when the serial under the cursor
//! differs from the one selected before.

use vstd::prelude::*;
use vstd::string::StringSliceAdditionalSpecFns;

use crate::command::{Command, SpecCommand};
use crate::device::{copy_bytes, duplicate_devices, ConnectionType, Device, SpecDevice};
use crate::keymap::{spec_keymap_get, KeyChord, SectionKeymap};
use crate::msg::{Msg, SpecMsg};
use crate::roster::key_eq;
use crate::text::bytes_eq;

verus! {

/// Milliseconds between automatic roster refreshes.
pub const REFRESH_INTERVAL_MS: u64 = 2000;

/// The actions the device panel understands, by bound name.
#[derive(Debug, Clone, Copy, PartialEq, Eq, Structural)]
pub enum DeviceAction {
    Up,
    Down,
    Disconnect,
    Refresh,
    OpenEmulators,
}

/// The panel action an action name denotes, if any.
pub open spec fn spec_device_action_of(s: Seq<u8>) -> Option<DeviceAction> {
    if s == "Up".spec_bytes() {
        Some(DeviceAction::Up)
    } else if s == "Down".spec_bytes() {
        Some(DeviceAction::Down)
    } else if s == "Disconnect".spec_bytes() {
        Some(DeviceAction::Disconnect)
    } else if s == "Refresh".spec_bytes() {
        Some(DeviceAction::Refresh)
    } else if s == "OpenEmulators".spec_bytes() {
        Some(DeviceAction::OpenEmulators)
    } else {
        None
    }
}

impl DeviceAction {
    /// The action named by a byte string.
    pub fn from_bytes(s: &[u8]) -> (r: Result<DeviceAction, ()>)
        ensures
            r == match spec_device_action_of(s@) {
                Some(a) => Result::<DeviceAction, ()>::Ok(a),
                None => Result::<DeviceAction, ()>::Err(()),
            },
    {
        if bytes_eq(s, "Up".as_bytes()) {
            Ok(DeviceAction::Up)
        } else if bytes_eq(s, "Down".as_bytes()) {
            Ok(DeviceAction::Down)
        } else if bytes_eq(s, "Disconnect".as_bytes()) {
            Ok(DeviceAction::Disconnect)
        } else if bytes_eq(s, "Refresh".as_bytes()) {
            Ok(DeviceAction::Refresh)
        } else if bytes_eq(s, "OpenEmulators".as_bytes()) {
            Ok(DeviceAction::OpenEmulators)
        } else {
            Err(())
        }
    }

    /// The action named by a string.
    pub fn from_str(s: &str) -> (r: Result<DeviceAction, ()>)
        ensures
            r == match spec_device_action_of(s.spec_bytes()) {
                Some(a) => Result::<DeviceAction, ()>::Ok(a),
                None => Result::<DeviceAction, ()>::Err(()),
            },
    {
        DeviceAction::from_bytes(s.as_bytes())
    }
}

/// The device-list panel.
pub struct DevicesPane {
    devices: Vec<Device>,
    selected_index: usize,
    last_refresh_ms: u64,
    keymap: SectionKeymap,
    last_selected_serial: Option<Vec<u8>>,
}

/// Spec-level image of a `DevicesPane`.
pub struct SpecDevicesPane {
    pub devices: Seq<SpecDevice>,
    pub selected_index: int,
    pub last_refresh_ms: u64,
    pub keymap: Seq<(KeyChord, Seq<u8>)>,
    pub last_selected_serial: Option<Seq<u8>>,
}

impl View for DevicesPane {
    type V = SpecDevicesPane;

    closed spec fn view(&self) -> SpecDevicesPane {
        SpecDevicesPane {
            devices: self.devices.deep_view(),
            selected_index: self.selected_index as int,
            last_refresh_ms: self.last_refresh_ms,
            keymap: self.keymap@,
            last_selected_serial: self.last_selected_serial.deep_view(),
        }
    }
}

/// Serial under the cursor, when the cursor is in bounds.
pub open spec fn spec_pane_selected_serial(p: SpecDevicesPane) -> Option<Seq<u8>> {
    if 0 <= p.selected_index < p.devices.len() {
        Some(p.devices[p.selected_index].serial)
    } else {
        None
    }
}

/// Device under the cursor, when the cursor is in bounds.
pub open spec fn spec_pane_selected_device(p: SpecDevicesPane) -> Option<SpecDevice> {
    if 0 <= p.selected_index < p.devices.len() {
        Some(p.devices[p.selected_index])
    } else {
        None
    }
}

/// The panel after moving the cursor one up, clamped at zero.
pub open spec fn spec_select_previous(p: SpecDevicesPane) -> SpecDevicesPane {
    SpecDevicesPane {
        selected_index: if p.selected_index > 0 {
            p.selected_index - 1
        } else {
            0
        },
        ..p
    }
}

/// The panel after moving the cursor one down, clamped at the end; an empty
/// list leaves the cursor alone.
pub open spec fn spec_select_next(p: SpecDevicesPane) -> SpecDevicesPane {
    SpecDevicesPane {
        selected_index: if p.devices.len() > 0 {
            if p.selected_index < p.devices.len() - 1 {
                p.selected_index + 1
            } else {
                p.devices.len() - 1
            }
        } else {
            p.selected_index
        },
        ..p
    }
}

/// The panel after reclamping the cursor into the list bounds.
pub open spec fn spec_clamp_selection(p: SpecDevicesPane) -> SpecDevicesPane {
    SpecDevicesPane {
        selected_index: crate::roster::spec_clamp_index(p.devices.len() as int, p.selected_index),
        ..p
    }
}

/// The selection-changed step: when the serial under the cursor differs
/// from the last selected serial, remember the new serial and emit a
/// selection command carrying the device under the cursor; otherwise do
/// nothing.
pub open spec fn spec_selection_changed(p: SpecDevicesPane) -> (
    SpecDevicesPane,
    Option<SpecCommand>,
) {
    let nk = spec_pane_selected_serial(p);
    if nk != p.last_selected_serial {
        (
            SpecDevicesPane { last_selected_serial: nk, ..p },
            Some(SpecCommand::DeviceSelected(spec_pane_selected_device(p))),
        )
    } else {
        (p, None)
    }
}

/// The disconnect command for the device under the cursor: kill an
/// emulator, disconnect a TCP device, nothing for USB or no selection.
pub open spec fn spec_disconnect_command(p: SpecDevicesPane) -> Option<SpecCommand> {
    match spec_pane_selected_device(p) {
        Some(d) => match d.connection_type {
            ConnectionType::Emulator => Some(SpecCommand::KillEmulator(d.serial)),
            ConnectionType::Tcp => Some(SpecCommand::DisconnectDevice(d.serial)),
            ConnectionType::Usb => None,
        },
        None => None,
    }
}

/// An optional command as a command list.
pub open spec fn spec_opt_cmds(c: Option<SpecCommand>) -> Seq<SpecCommand> {
    match c {
        Some(x) => seq![x],
        None => Seq::empty(),
    }
}

/// The panel's reaction to one recognized action.
pub open spec fn spec_handle_action(p: SpecDevicesPane, a: DeviceAction) -> (
    SpecDevicesPane,
    Seq<SpecCommand>,
) {
    match a {
        DeviceAction::Up => {
            let stepped = spec_selection_changed(spec_select_previous(p));
            (stepped.0, spec_opt_cmds(stepped.1))
        },
        DeviceAction::Down => {
            let stepped = spec_selection_changed(spec_select_next(p));
            (stepped.0, spec_opt_cmds(stepped.1))
        },
        DeviceAction::Disconnect => (p, spec_opt_cmds(spec_disconnect_command(p))),
        DeviceAction::Refresh => (p, seq![SpecCommand::RefreshDevices]),
        DeviceAction::OpenEmulators => (p, seq![SpecCommand::OpenEmulatorsModal]),
    }
}

/// The panel's reaction to one message.
pub open spec fn spec_devices_update(p: SpecDevicesPane, m: SpecMsg) -> (
    SpecDevicesPane,
    Seq<SpecCommand>,
) {
    match m {
        SpecMsg::KeyPress(key) => match spec_keymap_get(p.keymap, key) {
            Some(name) => match spec_device_action_of(name) {
                Some(a) => spec_handle_action(p, a),
                None => (p, Seq::empty()),
            },
            None => (p, Seq::empty()),
        },
        SpecMsg::Tick(now) => {
            if now >= p.last_refresh_ms + REFRESH_INTERVAL_MS {
                (
                    SpecDevicesPane { last_refresh_ms: now, ..p },
                    seq![SpecCommand::RefreshDevices],
                )
            } else {
                (p, Seq::empty())
            }
        },
        SpecMsg::DevicesUpdated(devices) => {
            let replaced = SpecDevicesPane { devices: devices, ..p };
            let stepped = spec_selection_changed(spec_clamp_selection(replaced));
            (stepped.0, spec_opt_cmds(stepped.1))
        },
        _ => (p, Seq::empty()),
    }
}

impl DevicesPane {
    /// A panel showing `devices`, cursor at the top, nothing selected yet,
    /// the refresh clock at zero.
    pub fn new(devices: Vec<Device>, keymap: SectionKeymap) -> (r: DevicesPane)
        ensures
            r@.devices == devices.deep_view(),
            r@.selected_index == 0,
            r@.last_refresh_ms == 0,
            r@.keymap == keymap@,
            r@.last_selected_serial is None,
    {
        DevicesPane {
            devices,
            selected_index: 0,
            last_refresh_ms: 0,
            keymap,
            last_selected_serial: None,
        }
    }

    /// The roster the panel shows.
    pub fn devices(&self) -> (r: &Vec<Device>)
        ensures
            r.deep_view() == self@.devices,
    {
        &self.devices
    }

    /// The cursor position.
    pub fn selected_index(&self) -> (r: usize)
        ensures
            r == self@.selected_index,
    {
        self.selected_index
    }

    /// The serial remembered from the last selection change.
    pub fn last_selected_serial(&self) -> (r: &Option<Vec<u8>>)
        ensures
            r.deep_view() == self@.last_selected_serial,
    {
        &self.last_selected_serial
    }

    /// The device under the cursor, if the cursor is in bounds.
    pub fn selected_device(&self) -> (r: Option<&Device>)
        ensures
            r.deep_view() == spec_pane_selected_device(self@),
    {
        if self.selected_index < self.devices.len() {
            let d = &self.devices[self.selected_index];
            proof {
                assert(Some(d).deep_view() == Some(d@));
            }
            Some(d)
        } else {
            None
        }
    }

    /// Move the cursor one up, clamped at zero.
    pub fn select_previous(&mut self)
        ensures
            final(self)@ == spec_select_previous(old(self)@),
    {
        if self.selected_index > 0 {
            self.selected_index = self.selected_index - 1;
        }
    }

    /// Move the cursor one down, clamped at the end.
    pub fn select_next(&mut self)
        ensures
            final(self)@ == spec_select_next(old(self)@),
    {
        if self.devices.len() > 0 {
            if self.selected_index < self.devices.len() - 1 {
                self.selected_index = self.selected_index + 1;
            } else {
                self.selected_index = self.devices.len() - 1;
            }
        }
    }

    /// Reclamp the cursor into the list bounds.
    pub fn clamp_selection(&mut self)
        ensures
            final(self)@ == spec_clamp_selection(old(self)@),
    {
        self.selected_index = crate::roster::clamp_index(self.devices.len(), self.selected_index);
    }

    /// Emit a selection command exactly when the serial under the cursor
    /// differs from the last selected serial.
    pub fn selection_changed_command(&mut self) -> (r: Option<Command>)
        ensures
            ({
                let stepped = spec_selection_changed(old(self)@);
                final(self)@ == stepped.0 && r.deep_view() == stepped.1
            }),
    {
        let new_serial: Option<Vec<u8>> = if self.selected_index < self.devices.len() {
            let c = copy_bytes(&self.devices[self.selected_index].serial);
            proof {
                assert(c.deep_view() =~= c@);
            }
            Some(c)
        } else {
            None
        };
        proof {
            assert(new_serial.deep_view() == spec_pane_selected_serial(self@));
        }
        if !key_eq(&new_serial, &self.last_selected_serial) {
            let dev: Option<Device> = if self.selected_index < self.devices.len() {
                Some(self.devices[self.selected_index].duplicate())
            } else {
                None
            };
            proof {
                assert(dev.deep_view() == spec_pane_selected_device(self@));
            }
            self.last_selected_serial = new_serial;
            Some(Command::DeviceSelected(dev))
        } else {
            None
        }
    }

    /// The disconnect command for the device under the cursor.
    pub fn disconnect_command(&self) -> (r: Option<Command>)
        ensures
            r.deep_view() == spec_disconnect_command(self@),
    {
        if self.selected_index < self.devices.len() {
            let d = &self.devices[self.selected_index];
            match d.connection_type {
                ConnectionType::Emulator => Some(Command::KillEmulator(copy_bytes(&d.serial))),
                ConnectionType::Tcp => Some(Command::DisconnectDevice(copy_bytes(&d.serial))),
                ConnectionType::Usb => None,
            }
        } else {
            None
        }
    }

    /// React to one recognized panel action.
    pub fn handle_action(&mut self, action: DeviceAction) -> (r: Vec<Command>)
        ensures
            ({
                let stepped = spec_handle_action(old(self)@, action);
                final(self)@ == stepped.0 && r.deep_view() == stepped.1
            }),
    {
        match action {
            DeviceAction::Up => {
                self.select_previous();
                match self.selection_changed_command() {
                    Some(cmd) => {
                        let ghost cv = cmd@;
                        let mut r: Vec<Command> = Vec::new();
                        r.push(cmd);
                        proof {
                            assert(r.deep_view() =~= seq![cv]);
                        }
                        r
                    },
                    None => {
                        let r: Vec<Command> = Vec::new();
                        proof {
                            assert(r.deep_view() =~= Seq::<SpecCommand>::empty());
                        }
                        r
                    },
                }
            },
            DeviceAction::Down => {
                self.select_next();
                match self.selection_changed_command() {
                    Some(cmd) => {
                        let ghost cv = cmd@;
                        let mut r: Vec<Command> = Vec::new();
                        r.push(cmd);
                        proof {
                            assert(r.deep_view() =~= seq![cv]);
                        }
                        r
                    },
                    None => {
                        let r: Vec<Command> = Vec::new();
                        proof {
                            assert(r.deep_view() =~= Seq::<SpecCommand>::empty());
                        }
                        r
                    },
                }
            },
            DeviceAction::Disconnect => {
                match self.disconnect_command() {
                    Some(cmd) => {
                        let ghost cv = cmd@;
                        let mut r: Vec<Command> = Vec::new();
                        r.push(cmd);
                        proof {
                            assert(r.deep_view() =~= seq![cv]);
                        }
                        r
                    },
                    None => {
                        let r: Vec<Command> = Vec::new();
                        proof {
                            assert(r.deep_view() =~= Seq::<SpecCommand>::empty());
                        }
                        r
                    },
                }
            },
            DeviceAction::Refresh => {
                let mut r: Vec<Command> = Vec::new();
                r.push(Command::RefreshDevices);
                proof {
                    assert(r.deep_view() =~= seq![SpecCommand::RefreshDevices]);
                }
                r
            },
            DeviceAction::OpenEmulators => {
                let mut r: Vec<Command> = Vec::new();
                r.push(Command::OpenEmulatorsModal);
                proof {
                    assert(r.deep_view() =~= seq![SpecCommand::OpenEmulatorsModal]);
                }
                r
            },
        }
    }

    /// React to one message: a bound key press becomes a panel action, the
    /// timer requests a refresh when due, and a fresh roster replaces the
    /// list and reclamps the selection.
    pub fn update(&mut self, msg: &Msg) -> (r: Vec<Command>)
        ensures
            ({
                let stepped = spec_devices_update(old(self)@, msg@);
                final(self)@ == stepped.0 && r.deep_view() == stepped.1
            }),
    {
        match msg {
            Msg::KeyPress(key) => {
                match self.keymap.get(*key) {
                    Some(name) => {
                        proof {
                            assert(name.deep_view() =~= name@);
                        }
                        match DeviceAction::from_bytes(name.as_slice()) {
                            Ok(a) => self.handle_action(a),
                            Err(_) => {
                                let r: Vec<Command> = Vec::new();
                                proof {
                                    assert(r.deep_view() =~= Seq::<SpecCommand>::empty());
                                }
                                r
                            },
                        }
                    },
                    None => {
                        let r: Vec<Command> = Vec::new();
                        proof {
                            assert(r.deep_view() =~= Seq::<SpecCommand>::empty());
                        }
                        r
                    },
                }
            },
            Msg::Tick(now) => {
                let due = *now >= REFRESH_INTERVAL_MS && *now - REFRESH_INTERVAL_MS
                    >= self.last_refresh_ms;
                if due {
                    self.last_refresh_ms = *now;
                    let mut r: Vec<Command> = Vec::new();
                    r.push(Command::RefreshDevices);
                    proof {
                        assert(r.deep_view() =~= seq![SpecCommand::RefreshDevices]);
                    }
                    r
                } else {
                    let r: Vec<Command> = Vec::new();
                    proof {
                        assert(r.deep_view() =~= Seq::<SpecCommand>::empty());
                    }
                    r
                }
            },
            Msg::DevicesUpdated(devices) => {
                self.devices = duplicate_devices(devices);
                self.clamp_selection();
                match self.selection_changed_command() {
                    Some(cmd) => {
                        let ghost cv = cmd@;
                        let mut r: Vec<Command> = Vec::new();
                        r.push(cmd);
                        proof {
                            assert(r.deep_view() =~= seq![cv]);
                        }
                        r
                    },
                    None => {
                        let r: Vec<Command> = Vec::new();
                        proof {
                            assert(r.deep_view() =~= Seq::<SpecCommand>::empty());
                        }
                        r
                    },
                }
            },
            _ => {
                let r: Vec<Command> = Vec::new();
                proof {
                    assert(r.deep_view() =~= Seq::<SpecCommand>::empty());
                }
                r
            },
        }
    }
}

/// Feeding the panel the same roster twice in a row reports no change the
/// second time: the first replacement settles the cursor and the remembered
/// serial, and the identical roster then leaves both alone and emits
/// nothing.
pub proof fn lemma_devices_update_idempotent(p: SpecDevicesPane, devices: Seq<SpecDevice>)
    requires
        p.selected_index >= 0,
    ensures
        ({
            let first = spec_devices_update(p, SpecMsg::DevicesUpdated(devices));
            let second = spec_devices_update(first.0, SpecMsg::DevicesUpdated(devices));
            second.0 == first.0 && second.1 == Seq::<SpecCommand>::empty()
        }),
{
}

} // verus!
