//! Messages: immutable records of something that happened.
//!
//! Every event source — key input, the redraw timer, and completed bridge
//! work — feeds the one dispatch loop through this type.  The timer message
//! carries the loop's clock in milliseconds, so components need no clock of
//! their own.

use vstd::prelude::*;

use crate::device::{Device, SpecDevice};
use crate::keymap::KeyChord;
use crate::telemetry::{DeviceInfo, SpecDeviceInfo};

verus! {

/// One event, as the dispatch loop consumes it.
#[derive(Debug, Clone, PartialEq, Eq)]
pub enum Msg {
    /// The redraw timer fired; carries milliseconds since the loop started.
    Tick(u64),
    /// A roster refresh completed.
    DevicesUpdated(Vec<Device>),
    /// The logical selection moved to this device, or to none.
    DeviceSelected(Option<Device>),
    /// A telemetry fetch completed.
    DeviceInfoUpdated(DeviceInfo),
    /// A key was pressed.
    KeyPress(KeyChord),
}

/// Spec-level image of a `Msg`.
pub enum SpecMsg {
    Tick(u64),
    DevicesUpdated(Seq<SpecDevice>),
    DeviceSelected(Option<SpecDevice>),
    DeviceInfoUpdated(SpecDeviceInfo),
    KeyPress(KeyChord),
}

impl View for Msg {
    type V = SpecMsg;

    open spec fn view(&self) -> SpecMsg {
        match self {
            Msg::Tick(now) => SpecMsg::Tick(*now),
            Msg::DevicesUpdated(devices) => SpecMsg::DevicesUpdated(devices.deep_view()),
            Msg::DeviceSelected(device) => SpecMsg::DeviceSelected(device.deep_view()),
            Msg::DeviceInfoUpdated(info) => SpecMsg::DeviceInfoUpdated(info@),
            Msg::KeyPress(key) => SpecMsg::KeyPress(*key),
        }
    }
}

impl DeepView for Msg {
    type V = SpecMsg;

    open spec fn deep_view(&self) -> SpecMsg {
        self.view()
    }
}

} // verus!
