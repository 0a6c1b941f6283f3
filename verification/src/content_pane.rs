//! The content panel: telemetry for the currently selected device.
//!
//! The panel tracks the selected serial, holds at most one telemetry record
//! for it, and requests a fresh fetch when the selection changes or the
//! refresh interval elapses.  A record arriving for a serial that is no
//! longer selected is dropped.  The fetch timer is not touched when the
//! selection changes: the immediate fetch request stands in for resetting
//! it.

use vstd::prelude::*;

use crate::command::{Command, SpecCommand};
use crate::device::copy_bytes;
use crate::msg::{Msg, SpecMsg};
use crate::roster::key_eq;
use crate::telemetry::{DeviceInfo, SpecDeviceInfo};

verus! {

/// Milliseconds between automatic telemetry refreshes.
pub const DEVICE_INFO_REFRESH_INTERVAL_MS: u64 = 2000;

/// The content panel.
pub struct ContentPane {
    device_info: Option<DeviceInfo>,
    selected_serial: Option<Vec<u8>>,
    last_refresh_ms: u64,
}

/// Spec-level image of a `ContentPane`.
pub struct SpecContentPane {
    pub device_info: Option<SpecDeviceInfo>,
    pub selected_serial: Option<Seq<u8>>,
    pub last_refresh_ms: u64,
}

impl View for ContentPane {
    type V = SpecContentPane;

    closed spec fn view(&self) -> SpecContentPane {
        SpecContentPane {
            device_info: self.device_info.deep_view(),
            selected_serial: self.selected_serial.deep_view(),
            last_refresh_ms: self.last_refresh_ms,
        }
    }
}

/// The panel's reaction to one message: a due timer requests a refresh for
/// the selected serial; a selection change drops the held record and
/// requests a fetch for the new serial; an arriving record is kept only
/// when it still matches the selection.
pub open spec fn spec_content_update(c: SpecContentPane, m: SpecMsg) -> (
    SpecContentPane,
    Seq<SpecCommand>,
) {
    match m {
        SpecMsg::Tick(now) => match c.selected_serial {
            Some(serial) => {
                if now >= c.last_refresh_ms + DEVICE_INFO_REFRESH_INTERVAL_MS {
                    (
                        SpecContentPane { last_refresh_ms: now, ..c },
                        seq![SpecCommand::RefreshDeviceInfo(serial)],
                    )
                } else {
                    (c, Seq::empty())
                }
            },
            None => (c, Seq::empty()),
        },
        SpecMsg::DeviceSelected(device) => {
            let nk = match device {
                Some(d) => Some(d.serial),
                None => None,
            };
            if nk != c.selected_serial {
                let c1 = SpecContentPane { selected_serial: nk, device_info: None, ..c };
                match nk {
                    Some(serial) => (c1, seq![SpecCommand::RefreshDeviceInfo(serial)]),
                    None => (c1, Seq::empty()),
                }
            } else {
                (c, Seq::empty())
            }
        },
        SpecMsg::DeviceInfoUpdated(info) => {
            if c.selected_serial == Some(info.serial) {
                (SpecContentPane { device_info: Some(info), ..c }, Seq::empty())
            } else {
                (c, Seq::empty())
            }
        },
        _ => (c, Seq::empty()),
    }
}

impl ContentPane {
    /// An empty panel: nothing selected, nothing held, the clock at zero.
    pub fn new() -> (r: ContentPane)
        ensures
            r@.device_info is None,
            r@.selected_serial is None,
            r@.last_refresh_ms == 0,
    {
        ContentPane { device_info: None, selected_serial: None, last_refresh_ms: 0 }
    }

    /// The telemetry record held for the selected device, if one arrived.
    pub fn device_info(&self) -> (r: Option<&DeviceInfo>)
        ensures
            r.deep_view() == self@.device_info,
    {
        match &self.device_info {
            Some(info) => Some(info),
            None => None,
        }
    }

    /// The serial of the selected device, if any.
    pub fn selected_serial(&self) -> (r: Option<&Vec<u8>>)
        ensures
            match r {
                Some(s) => self@.selected_serial == Some(s@),
                None => self@.selected_serial is None,
            },
    {
        match &self.selected_serial {
            Some(s) => Some(s),
            None => None,
        }
    }

    /// React to one message.
    pub fn update(&mut self, msg: &Msg) -> (r: Vec<Command>)
        ensures
            ({
                let stepped = spec_content_update(old(self)@, msg@);
                final(self)@ == stepped.0 && r.deep_view() == stepped.1
            }),
    {
        match msg {
            Msg::Tick(now) => {
                let serial_copy: Option<Vec<u8>> = match &self.selected_serial {
                    Some(s) => {
                        let c = copy_bytes(s);
                        proof {
                            assert(c.deep_view() =~= c@);
                        }
                        Some(c)
                    },
                    None => None,
                };
                proof {
                    assert(serial_copy.deep_view() == self@.selected_serial);
                }
                match serial_copy {
                    Some(s) => {
                        let due = *now >= DEVICE_INFO_REFRESH_INTERVAL_MS && *now
                            - DEVICE_INFO_REFRESH_INTERVAL_MS >= self.last_refresh_ms;
                        if due {
                            proof {
                                assert(s.deep_view() =~= s@);
                            }
                            self.last_refresh_ms = *now;
                            let mut r: Vec<Command> = Vec::new();
                            r.push(Command::RefreshDeviceInfo(s));
                            proof {
                                assert(r.deep_view() =~= spec_content_update(
                                    old(self)@,
                                    msg@,
                                ).1);
                            }
                            r
                        } else {
                            let r: Vec<Command> = Vec::new();
                            proof {
                                assert(r.deep_view() =~= Seq::<SpecCommand>::empty());
                            }
                            r
                        }
                    },
                    None => {
                        let r: Vec<Command> = Vec::new();
                        proof {
                            assert(r.deep_view() =~= Seq::<SpecCommand>::empty());
                        }
                        r
                    },
                }
            },
            Msg::DeviceSelected(device) => {
                let new_serial: Option<Vec<u8>> = match device {
                    Some(d) => {
                        let c = copy_bytes(&d.serial);
                        proof {
                            assert(c.deep_view() =~= c@);
                        }
                        Some(c)
                    },
                    None => None,
                };
                if !key_eq(&new_serial, &self.selected_serial) {
                    self.device_info = None;
                    match new_serial {
                        Some(serial) => {
                            let s2 = copy_bytes(&serial);
                            proof {
                                assert(serial.deep_view() =~= serial@);
                            }
                            self.selected_serial = Some(serial);
                            let mut r: Vec<Command> = Vec::new();
                            r.push(Command::RefreshDeviceInfo(s2));
                            proof {
                                assert(r.deep_view() =~= spec_content_update(
                                    old(self)@,
                                    msg@,
                                ).1);
                            }
                            r
                        },
                        None => {
                            self.selected_serial = None;
                            let r: Vec<Command> = Vec::new();
                            proof {
                                assert(r.deep_view() =~= Seq::<SpecCommand>::empty());
                            }
                            r
                        },
                    }
                } else {
                    let r: Vec<Command> = Vec::new();
                    proof {
                        assert(r.deep_view() =~= Seq::<SpecCommand>::empty());
                    }
                    r
                }
            },
            Msg::DeviceInfoUpdated(info) => {
                let matches_selection = match &self.selected_serial {
                    Some(s) => {
                        proof {
                            assert(s.deep_view() =~= s@);
                        }
                        crate::text::bytes_eq(s.as_slice(), info.serial.as_slice())
                    },
                    None => false,
                };
                if matches_selection {
                    self.device_info = Some(info.duplicate());
                }
                let r: Vec<Command> = Vec::new();
                proof {
                    assert(r.deep_view() =~= Seq::<SpecCommand>::empty());
                }
                r
            },
            _ => {
                let r: Vec<Command> = Vec::new();
                proof {
                    assert(r.deep_view() =~= Seq::<SpecCommand>::empty());
                }
                r
            },
        }
    }
}

} // verus!
