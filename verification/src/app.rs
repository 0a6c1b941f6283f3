//! The application core: focus, modal, panels, and the dispatch rules.
//!
//! One logical thread owns this state.  A key press is routed with strict
//! precedence — an open modal first, then the global bindings, then the
//! focused panel — and a message is broadcast to every panel.  Commands
//! coming back are turned into effects for the caller to run against the
//! device bridge; every bridge result returns as an ordinary message on the
//! same queue, never re-entering dispatch synchronously.

use vstd::prelude::*;
use vstd::string::StringSliceAdditionalSpecFns;

use crate::command::{Command, SpecCommand};
use crate::content_pane::{spec_content_update, ContentPane, SpecContentPane};
use crate::device::{copy_bytes, Device, SpecDevice};
use crate::devices_pane::{spec_devices_update, DevicesPane, SpecDevicesPane};
use crate::emulator::Avd;
use crate::keymap::{spec_keymap_get, KeyChord, SectionKeymap};
use crate::modal::{spec_em_handle_key, EmulatorsModal, HelpModal, Modal, SpecModal};
use crate::msg::{Msg, SpecMsg};
use crate::pane::{spec_pane_next, spec_pane_prev, Pane};
use crate::text::bytes_eq;

verus! {

/// The actions bound globally, by name.
#[derive(Debug, Clone, Copy, PartialEq, Eq, Structural)]
pub enum GlobalAction {
    Quit,
    CycleFocus,
    CycleFocusBackwards,
    ToggleHelp,
    CloseModal,
}

/// The global action an action name denotes, if any.
pub open spec fn spec_global_action_of(s: Seq<u8>) -> Option<GlobalAction> {
    if s == "Quit".spec_bytes() {
        Some(GlobalAction::Quit)
    } else if s == "CycleFocus".spec_bytes() {
        Some(GlobalAction::CycleFocus)
    } else if s == "CycleFocusBackwards".spec_bytes() {
        Some(GlobalAction::CycleFocusBackwards)
    } else if s == "ToggleHelp".spec_bytes() {
        Some(GlobalAction::ToggleHelp)
    } else if s == "CloseModal".spec_bytes() {
        Some(GlobalAction::CloseModal)
    } else {
        None
    }
}

impl GlobalAction {
    /// The action named by a byte string.
    pub fn from_bytes(s: &[u8]) -> (r: Option<GlobalAction>)
        ensures
            r == spec_global_action_of(s@),
    {
        if bytes_eq(s, "Quit".as_bytes()) {
            Some(GlobalAction::Quit)
        } else if bytes_eq(s, "CycleFocus".as_bytes()) {
            Some(GlobalAction::CycleFocus)
        } else if bytes_eq(s, "CycleFocusBackwards".as_bytes()) {
            Some(GlobalAction::CycleFocusBackwards)
        } else if bytes_eq(s, "ToggleHelp".as_bytes()) {
            Some(GlobalAction::ToggleHelp)
        } else if bytes_eq(s, "CloseModal".as_bytes()) {
            Some(GlobalAction::CloseModal)
        } else {
            None
        }
    }

    /// The action named by a string.
    pub fn from_str(s: &str) -> (r: Option<GlobalAction>)
        ensures
            r == spec_global_action_of(s.spec_bytes()),
    {
        GlobalAction::from_bytes(s.as_bytes())
    }
}

/// One piece of outside work the core asks its caller to perform.  The
/// caller runs it against the device bridge and feeds any outcome back as a
/// message; a failed effect is simply dropped, leaving the data stale.
#[derive(Debug, Clone, PartialEq, Eq)]
pub enum Effect {
    /// Launch the named emulator image.
    StartEmulator(Vec<u8>),
    /// Stop the emulator running under this serial.
    KillEmulator(Vec<u8>),
    /// Disconnect the TCP device with this serial.
    DisconnectDevice(Vec<u8>),
    /// Fetch the device roster; reply with a roster-updated message.
    RefreshDevices,
    /// Fetch telemetry for this device; reply with a telemetry message.
    FetchDeviceInfo(Device),
    /// Gather the emulator-image roster; reply by opening the picker.
    QueryEmulators,
    /// Put this message on the event queue for a later dispatch cycle.
    Deliver(Msg),
}

/// Spec-level image of an `Effect`.
pub enum SpecEffect {
    StartEmulator(Seq<u8>),
    KillEmulator(Seq<u8>),
    DisconnectDevice(Seq<u8>),
    RefreshDevices,
    FetchDeviceInfo(SpecDevice),
    QueryEmulators,
    Deliver(SpecMsg),
}

impl View for Effect {
    type V = SpecEffect;

    open spec fn view(&self) -> SpecEffect {
        match self {
            Effect::StartEmulator(n) => SpecEffect::StartEmulator(n@),
            Effect::KillEmulator(s) => SpecEffect::KillEmulator(s@),
            Effect::DisconnectDevice(s) => SpecEffect::DisconnectDevice(s@),
            Effect::RefreshDevices => SpecEffect::RefreshDevices,
            Effect::FetchDeviceInfo(d) => SpecEffect::FetchDeviceInfo(d@),
            Effect::QueryEmulators => SpecEffect::QueryEmulators,
            Effect::Deliver(m) => SpecEffect::Deliver(m@),
        }
    }
}

impl DeepView for Effect {
    type V = SpecEffect;

    open spec fn deep_view(&self) -> SpecEffect {
        self.view()
    }
}

/// The application core.
pub struct App {
    running: bool,
    focus: Pane,
    devices: DevicesPane,
    content: ContentPane,
    modal: Option<Modal>,
    global_keymap: SectionKeymap,
    emulators_keymap: SectionKeymap,
}

/// Spec-level image of an `App`.
pub struct SpecApp {
    pub running: bool,
    pub focus: Pane,
    pub devices: SpecDevicesPane,
    pub content: SpecContentPane,
    pub modal: Option<SpecModal>,
    pub global_keymap: Seq<(KeyChord, Seq<u8>)>,
    pub emulators_keymap: Seq<(KeyChord, Seq<u8>)>,
}

impl View for App {
    type V = SpecApp;

    closed spec fn view(&self) -> SpecApp {
        SpecApp {
            running: self.running,
            focus: self.focus,
            devices: self.devices@,
            content: self.content@,
            modal: self.modal.deep_view(),
            global_keymap: self.global_keymap@,
            emulators_keymap: self.emulators_keymap@,
        }
    }
}

/// The global action bound to `key`, if any.
pub open spec fn spec_app_lookup_global(a: SpecApp, key: KeyChord) -> Option<GlobalAction> {
    match spec_keymap_get(a.global_keymap, key) {
        Some(name) => spec_global_action_of(name),
        None => None,
    }
}

/// The state after one global action: quit stops the loop, the cycle
/// actions move the focus, help opens the overlay, close dismisses any
/// modal.
pub open spec fn spec_handle_global_action(a: SpecApp, g: GlobalAction) -> SpecApp {
    match g {
        GlobalAction::Quit => SpecApp { running: false, ..a },
        GlobalAction::CycleFocus => SpecApp { focus: spec_pane_next(a.focus), ..a },
        GlobalAction::CycleFocusBackwards => SpecApp { focus: spec_pane_prev(a.focus), ..a },
        GlobalAction::ToggleHelp => SpecApp { modal: Some(SpecModal::Help), ..a },
        GlobalAction::CloseModal => SpecApp { modal: None, ..a },
    }
}

/// The full key-routing discipline: modal before global before focused
/// panel.  While the help overlay is open only close, toggle-help and quit
/// act, and nothing reaches any panel.  While the picker is open, close,
/// toggle-help and quit act globally and every other key goes to the picker
/// alone.  With no modal, a global binding wins, and otherwise the focused
/// panel handles the key; the emulator focus position has no panel of its
/// own, so keys there are dropped.
pub open spec fn spec_app_handle_key(a: SpecApp, key: KeyChord) -> (SpecApp, Seq<SpecCommand>) {
    let g = spec_app_lookup_global(a, key);
    match a.modal {
        Some(SpecModal::Help) => {
            if g == Some(GlobalAction::CloseModal) || g == Some(GlobalAction::ToggleHelp) {
                (SpecApp { modal: None, ..a }, Seq::empty())
            } else if g == Some(GlobalAction::Quit) {
                (SpecApp { running: false, ..a }, Seq::empty())
            } else {
                (a, Seq::empty())
            }
        },
        Some(SpecModal::Emulators(em)) => {
            if g == Some(GlobalAction::CloseModal) {
                (SpecApp { modal: None, ..a }, Seq::empty())
            } else if g == Some(GlobalAction::ToggleHelp) {
                (SpecApp { modal: Some(SpecModal::Help), ..a }, Seq::empty())
            } else if g == Some(GlobalAction::Quit) {
                (SpecApp { running: false, ..a }, Seq::empty())
            } else {
                let stepped = spec_em_handle_key(em, key);
                (SpecApp { modal: Some(SpecModal::Emulators(stepped.0)), ..a }, stepped.1)
            }
        },
        None => match g {
            Some(action) => (spec_handle_global_action(a, action), Seq::empty()),
            None => match a.focus {
                Pane::DeviceList => {
                    let stepped = spec_devices_update(a.devices, SpecMsg::KeyPress(key));
                    (SpecApp { devices: stepped.0, ..a }, stepped.1)
                },
                Pane::Content => {
                    let stepped = spec_content_update(a.content, SpecMsg::KeyPress(key));
                    (SpecApp { content: stepped.0, ..a }, stepped.1)
                },
                Pane::Emulators => (a, Seq::empty()),
            },
        },
    }
}

/// The broadcast of one message: every panel sees it, in panel order; an
/// open modal sees broadcast traffic as a no-op, since its input arrives as
/// key presses alone.
pub open spec fn spec_app_dispatch(a: SpecApp, m: SpecMsg) -> (SpecApp, Seq<SpecCommand>) {
    let d = spec_devices_update(a.devices, m);
    let c = spec_content_update(a.content, m);
    (SpecApp { devices: d.0, content: c.0, ..a }, d.1 + c.1)
}

/// First device of the roster carrying this serial, if any.
pub open spec fn spec_find_device(devices: Seq<SpecDevice>, serial: Seq<u8>) -> Option<SpecDevice>
    decreases devices.len(),
{
    if devices.len() == 0 {
        None
    } else if devices[0].serial == serial {
        Some(devices[0])
    } else {
        spec_find_device(devices.drop_first(), serial)
    }
}

/// What applying one command does to the state, and the effect it leaves
/// for the caller: the modal-state commands act on the core at once; the
/// bridge commands become effects; a telemetry refresh is resolved against
/// the current roster and dropped when its serial is gone; a selection
/// notice is re-queued as a message.
pub open spec fn spec_app_apply_command(a: SpecApp, cmd: SpecCommand) -> (
    SpecApp,
    Option<SpecEffect>,
) {
    match cmd {
        SpecCommand::StartEmulator(name) => (a, Some(SpecEffect::StartEmulator(name))),
        SpecCommand::KillEmulator(serial) => (a, Some(SpecEffect::KillEmulator(serial))),
        SpecCommand::OpenEmulatorsModal => (a, Some(SpecEffect::QueryEmulators)),
        SpecCommand::CloseEmulatorsModal => (SpecApp { modal: None, ..a }, None),
        SpecCommand::RefreshDevices => (a, Some(SpecEffect::RefreshDevices)),
        SpecCommand::RefreshDeviceInfo(serial) => match spec_find_device(
            a.devices.devices,
            serial,
        ) {
            Some(d) => (a, Some(SpecEffect::FetchDeviceInfo(d))),
            None => (a, None),
        },
        SpecCommand::DisconnectDevice(serial) => (a, Some(SpecEffect::DisconnectDevice(serial))),
        SpecCommand::DeviceSelected(d) => (
            a,
            Some(SpecEffect::Deliver(SpecMsg::DeviceSelected(d))),
        ),
        SpecCommand::Focus(p) => (SpecApp { focus: p, ..a }, None),
    }
}

impl App {
    /// A core showing `devices`, focus on the device list, no modal, with
    /// the three key tables the configuration supplied.
    pub fn new(
        devices: Vec<Device>,
        global_keymap: SectionKeymap,
        device_keymap: SectionKeymap,
        emulators_keymap: SectionKeymap,
    ) -> (r: App)
        ensures
            r@.running == true,
            r@.focus == Pane::DeviceList,
            r@.devices.devices == devices.deep_view(),
            r@.devices.selected_index == 0,
            r@.devices.last_refresh_ms == 0,
            r@.devices.keymap == device_keymap@,
            r@.devices.last_selected_serial is None,
            r@.content.device_info is None,
            r@.content.selected_serial is None,
            r@.content.last_refresh_ms == 0,
            r@.modal is None,
            r@.global_keymap == global_keymap@,
            r@.emulators_keymap == emulators_keymap@,
    {
        App {
            running: true,
            focus: Pane::DeviceList,
            devices: DevicesPane::new(devices, device_keymap),
            content: ContentPane::new(),
            modal: None,
            global_keymap,
            emulators_keymap,
        }
    }

    /// Whether the loop should keep running.
    pub fn running(&self) -> (r: bool)
        ensures
            r == self@.running,
    {
        self.running
    }

    /// The focused panel.
    pub fn focus(&self) -> (r: Pane)
        ensures
            r == self@.focus,
    {
        self.focus
    }

    /// The active modal, if one is open.
    pub fn modal(&self) -> (r: &Option<Modal>)
        ensures
            r.deep_view() == self@.modal,
    {
        &self.modal
    }

    /// The device-list panel.
    pub fn devices_pane(&self) -> (r: &DevicesPane)
        ensures
            r@ == self@.devices,
    {
        &self.devices
    }

    /// The content panel.
    pub fn content_pane(&self) -> (r: &ContentPane)
        ensures
            r@ == self@.content,
    {
        &self.content
    }

    /// The global action bound to a key, if any.
    pub fn lookup_global_action(&self, key: KeyChord) -> (r: Option<GlobalAction>)
        ensures
            r == spec_app_lookup_global(self@, key),
    {
        match self.global_keymap.get(key) {
            Some(name) => {
                proof {
                    assert(name.deep_view() =~= name@);
                }
                GlobalAction::from_bytes(name.as_slice())
            },
            None => None,
        }
    }

    /// Apply one global action.
    pub fn handle_global_action(&mut self, action: GlobalAction)
        ensures
            final(self)@ == spec_handle_global_action(old(self)@, action),
    {
        match action {
            GlobalAction::Quit => {
                self.running = false;
            },
            GlobalAction::CycleFocus => {
                self.focus = self.focus.next();
            },
            GlobalAction::CycleFocusBackwards => {
                self.focus = self.focus.prev();
            },
            GlobalAction::ToggleHelp => {
                self.modal = Some(Modal::Help(HelpModal::new()));
            },
            GlobalAction::CloseModal => {
                self.modal = None;
            },
        }
    }

    /// Route one key press: an open modal owns it, then the global
    /// bindings, then the focused panel.
    pub fn handle_key(&mut self, key: KeyChord) -> (r: Vec<Command>)
        ensures
            ({
                let stepped = spec_app_handle_key(old(self)@, key);
                final(self)@ == stepped.0 && r.deep_view() == stepped.1
            }),
    {
        let global_action = self.lookup_global_action(key);
        let modal_kind: u8 = match &self.modal {
            Some(Modal::Help(_)) => 1,
            Some(Modal::Emulators(_)) => 2,
            None => 0,
        };
        if modal_kind == 1 {
            match global_action {
                Some(GlobalAction::CloseModal) | Some(GlobalAction::ToggleHelp) => {
                    self.modal = None;
                },
                Some(GlobalAction::Quit) => {
                    self.running = false;
                },
                _ => {},
            }
            let r: Vec<Command> = Vec::new();
            proof {
                assert(r.deep_view() =~= Seq::<SpecCommand>::empty());
            }
            r
        } else if modal_kind == 2 {
            match global_action {
                Some(GlobalAction::CloseModal) => {
                    self.modal = None;
                    let r: Vec<Command> = Vec::new();
                    proof {
                        assert(r.deep_view() =~= Seq::<SpecCommand>::empty());
                    }
                    r
                },
                Some(GlobalAction::ToggleHelp) => {
                    self.modal = Some(Modal::Help(HelpModal::new()));
                    let r: Vec<Command> = Vec::new();
                    proof {
                        assert(r.deep_view() =~= Seq::<SpecCommand>::empty());
                    }
                    r
                },
                Some(GlobalAction::Quit) => {
                    self.running = false;
                    let r: Vec<Command> = Vec::new();
                    proof {
                        assert(r.deep_view() =~= Seq::<SpecCommand>::empty());
                    }
                    r
                },
                _ => {
                    match &mut self.modal {
                        Some(Modal::Emulators(em)) => em.handle_key(key),
                        _ => {
                            proof {
                                assert(false);
                            }
                            Vec::new()
                        },
                    }
                },
            }
        } else {
            match global_action {
                Some(action) => {
                    self.handle_global_action(action);
                    let r: Vec<Command> = Vec::new();
                    proof {
                        assert(r.deep_view() =~= Seq::<SpecCommand>::empty());
                    }
                    r
                },
                None => {
                    match self.focus {
                        Pane::DeviceList => self.devices.update(&Msg::KeyPress(key)),
                        Pane::Content => self.content.update(&Msg::KeyPress(key)),
                        Pane::Emulators => {
                            let r: Vec<Command> = Vec::new();
                            proof {
                                assert(r.deep_view() =~= Seq::<SpecCommand>::empty());
                            }
                            r
                        },
                    }
                },
            }
        }
    }

    /// Broadcast one message to every panel, collecting the commands in
    /// panel order.
    pub fn dispatch(&mut self, msg: &Msg) -> (r: Vec<Command>)
        ensures
            ({
                let stepped = spec_app_dispatch(old(self)@, msg@);
                final(self)@ == stepped.0 && r.deep_view() == stepped.1
            }),
    {
        let mut r = self.devices.update(msg);
        let ghost d_cmds = r.deep_view();
        let mut from_content = self.content.update(msg);
        let ghost c_cmds = from_content.deep_view();
        r.append(&mut from_content);
        proof {
            assert(r.deep_view() =~~= d_cmds + c_cmds);
        }
        r
    }

    /// First device of the current roster carrying this serial, copied out.
    pub fn find_device(&self, serial: &Vec<u8>) -> (r: Option<Device>)
        ensures
            r.deep_view() == spec_find_device(self@.devices.devices, serial@),
    {
        let devices = self.devices.devices();
        let ghost dv = self@.devices.devices;
        let mut k: usize = 0;
        proof {
            assert(dv.subrange(0, dv.len() as int) =~= dv);
        }
        while k < devices.len()
            invariant
                k <= devices@.len(),
                dv == devices.deep_view(),
                dv == self@.devices.devices,
                devices@.len() == dv.len(),
                forall|j: int| 0 <= j < devices@.len() ==> devices@[j]@ == dv[j],
                spec_find_device(dv, serial@) == spec_find_device(
                    dv.subrange(k as int, dv.len() as int),
                    serial@,
                ),
            decreases devices@.len() - k,
        {
            let ghost pre = dv.subrange(k as int, dv.len() as int);
            proof {
                assert(pre[0] == dv[k as int]);
                assert(devices@[k as int]@ == pre[0]);
                assert(pre.drop_first() =~= dv.subrange(k + 1, dv.len() as int));
            }
            if bytes_eq(devices[k].serial.as_slice(), serial.as_slice()) {
                let d = devices[k].duplicate();
                proof {
                    assert(Some(d).deep_view() == Some(d@));
                }
                return Some(d);
            }
            k = k + 1;
        }
        proof {
            assert(dv.subrange(dv.len() as int, dv.len() as int) =~= Seq::<SpecDevice>::empty());
        }
        None
    }

    /// Apply one command: mutate the core for the modal and focus commands,
    /// and hand everything that needs the bridge back as an effect.
    pub fn apply_command(&mut self, cmd: Command) -> (r: Option<Effect>)
        ensures
            ({
                let stepped = spec_app_apply_command(old(self)@, cmd@);
                final(self)@ == stepped.0 && r.deep_view() == stepped.1
            }),
    {
        match cmd {
            Command::StartEmulator(name) => {
                proof {
                    assert(name.deep_view() =~= name@);
                }
                Some(Effect::StartEmulator(name))
            },
            Command::KillEmulator(serial) => Some(Effect::KillEmulator(serial)),
            Command::OpenEmulatorsModal => Some(Effect::QueryEmulators),
            Command::CloseEmulatorsModal => {
                self.modal = None;
                None
            },
            Command::RefreshDevices => Some(Effect::RefreshDevices),
            Command::RefreshDeviceInfo(serial) => {
                match self.find_device(&serial) {
                    Some(d) => Some(Effect::FetchDeviceInfo(d)),
                    None => None,
                }
            },
            Command::DisconnectDevice(serial) => Some(Effect::DisconnectDevice(serial)),
            Command::DeviceSelected(d) => Some(Effect::Deliver(Msg::DeviceSelected(d))),
            Command::Focus(p) => {
                self.focus = p;
                None
            },
        }
    }

    /// Open the emulator picker over a freshly gathered image roster.
    pub fn open_emulators_modal(&mut self, avds: Vec<Avd>)
        ensures
            final(self)@ == (SpecApp {
                modal: Some(
                    SpecModal::Emulators(
                        crate::modal::SpecEmulatorsModal {
                            items: avds.deep_view(),
                            selected_index: 0,
                            keymap: old(self)@.emulators_keymap,
                        },
                    ),
                ),
                ..old(self)@
            }),
    {
        let keymap = self.emulators_keymap.duplicate();
        self.modal = Some(Modal::Emulators(EmulatorsModal::new(avds, keymap)));
    }
}

/// Modal exclusivity: while the help overlay is open, no key press reaches
/// any panel — the panels, the focus and the selection stay exactly as they
/// were, no command is issued, and only closing the overlay or quitting can
/// change the core at all.
pub proof fn lemma_help_modal_exclusive(a: SpecApp, key: KeyChord)
    requires
        a.modal == Some(SpecModal::Help),
    ensures
        ({
            let stepped = spec_app_handle_key(a, key);
            stepped.0.devices == a.devices && stepped.0.content == a.content && stepped.0.focus
                == a.focus && stepped.1 == Seq::<SpecCommand>::empty()
        }),
{
}

} // verus!
