//! Commands: immutable requests for side effects.
//!
//! A command is produced by a component in response to one action and is
//! consumed within the same dispatch cycle; none is retained.

use vstd::prelude::*;

use crate::device::{Device, SpecDevice};
use crate::pane::Pane;

verus! {

/// One side-effect request.
#[derive(Debug, Clone, PartialEq, Eq)]
pub enum Command {
    StartEmulator(Vec<u8>),
    KillEmulator(Vec<u8>),
    OpenEmulatorsModal,
    CloseEmulatorsModal,
    RefreshDevices,
    RefreshDeviceInfo(Vec<u8>),
    DisconnectDevice(Vec<u8>),
    DeviceSelected(Option<Device>),
    Focus(Pane),
}

/// Spec-level image of a `Command`.
pub enum SpecCommand {
    StartEmulator(Seq<u8>),
    KillEmulator(Seq<u8>),
    OpenEmulatorsModal,
    CloseEmulatorsModal,
    RefreshDevices,
    RefreshDeviceInfo(Seq<u8>),
    DisconnectDevice(Seq<u8>),
    DeviceSelected(Option<SpecDevice>),
    Focus(Pane),
}

impl View for Command {
    type V = SpecCommand;

    open spec fn view(&self) -> SpecCommand {
        match self {
            Command::StartEmulator(n) => SpecCommand::StartEmulator(n@),
            Command::KillEmulator(s) => SpecCommand::KillEmulator(s@),
            Command::OpenEmulatorsModal => SpecCommand::OpenEmulatorsModal,
            Command::CloseEmulatorsModal => SpecCommand::CloseEmulatorsModal,
            Command::RefreshDevices => SpecCommand::RefreshDevices,
            Command::RefreshDeviceInfo(s) => SpecCommand::RefreshDeviceInfo(s@),
            Command::DisconnectDevice(s) => SpecCommand::DisconnectDevice(s@),
            Command::DeviceSelected(d) => SpecCommand::DeviceSelected(d.deep_view()),
            Command::Focus(p) => SpecCommand::Focus(*p),
        }
    }
}

impl DeepView for Command {
    type V = SpecCommand;

    open spec fn deep_view(&self) -> SpecCommand {
        self.view()
    }
}

} // verus!
