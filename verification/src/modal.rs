//! Modals: the help overlay and the emulator picker.
//!
//! At most one modal is active; while one is open it owns key input
//! exclusively.  The picker accepts its fixed subset of actions — list
//! movement, select, kill — and nothing else; the help overlay reacts to no
//! key of its own at all, leaving even its closing to the global bindings.

use vstd::prelude::*;
use vstd::string::StringSliceAdditionalSpecFns;

use crate::command::{Command, SpecCommand};
use crate::device::copy_bytes;
use crate::emulator::{Avd, SpecAvd};
use crate::keymap::{spec_keymap_get, KeyChord, SectionKeymap};
use crate::msg::Msg;
use crate::text::bytes_eq;

verus! {

/// The help overlay: static text, no state.
pub struct HelpModal;

impl HelpModal {
    /// The overlay.
    pub fn new() -> (r: HelpModal) {
        HelpModal
    }

    /// The overlay reacts to no message.
    pub fn update(&mut self, msg: &Msg) -> (r: Vec<Command>)
        ensures
            r.deep_view() == Seq::<SpecCommand>::empty(),
    {
        let r: Vec<Command> = Vec::new();
        proof {
            assert(r.deep_view() =~= Seq::<SpecCommand>::empty());
        }
        r
    }
}

/// The actions the emulator picker understands, by bound name.
#[derive(Debug, Clone, Copy, PartialEq, Eq, Structural)]
pub enum EmulatorAction {
    Up,
    Down,
    Select,
    Kill,
}

/// The picker action an action name denotes, if any.
pub open spec fn spec_emulator_action_of(s: Seq<u8>) -> Option<EmulatorAction> {
    if s == "Up".spec_bytes() {
        Some(EmulatorAction::Up)
    } else if s == "Down".spec_bytes() {
        Some(EmulatorAction::Down)
    } else if s == "Select".spec_bytes() {
        Some(EmulatorAction::Select)
    } else if s == "Kill".spec_bytes() {
        Some(EmulatorAction::Kill)
    } else {
        None
    }
}

impl EmulatorAction {
    /// The action named by a byte string.
    pub fn from_bytes(s: &[u8]) -> (r: Option<EmulatorAction>)
        ensures
            r == spec_emulator_action_of(s@),
    {
        if bytes_eq(s, "Up".as_bytes()) {
            Some(EmulatorAction::Up)
        } else if bytes_eq(s, "Down".as_bytes()) {
            Some(EmulatorAction::Down)
        } else if bytes_eq(s, "Select".as_bytes()) {
            Some(EmulatorAction::Select)
        } else if bytes_eq(s, "Kill".as_bytes()) {
            Some(EmulatorAction::Kill)
        } else {
            None
        }
    }

    /// The action named by a string.
    pub fn from_str(s: &str) -> (r: Option<EmulatorAction>)
        ensures
            r == spec_emulator_action_of(s.spec_bytes()),
    {
        EmulatorAction::from_bytes(s.as_bytes())
    }
}

/// The emulator picker: the image roster it offers and its cursor.
pub struct EmulatorsModal {
    items: Vec<Avd>,
    selected_index: usize,
    keymap: SectionKeymap,
}

/// Spec-level image of an `EmulatorsModal`.
pub struct SpecEmulatorsModal {
    pub items: Seq<SpecAvd>,
    pub selected_index: int,
    pub keymap: Seq<(KeyChord, Seq<u8>)>,
}

impl View for EmulatorsModal {
    type V = SpecEmulatorsModal;

    closed spec fn view(&self) -> SpecEmulatorsModal {
        SpecEmulatorsModal {
            items: self.items.deep_view(),
            selected_index: self.selected_index as int,
            keymap: self.keymap@,
        }
    }
}

/// Image under the picker's cursor, when the cursor is in bounds.
pub open spec fn spec_em_selected(m: SpecEmulatorsModal) -> Option<SpecAvd> {
    if 0 <= m.selected_index < m.items.len() {
        Some(m.items[m.selected_index])
    } else {
        None
    }
}

/// The picker's reaction to one of its actions: cursor moves clamp to the
/// list; kill asks to stop the running emulator under the cursor; select
/// starts a stopped image, or closes the picker and focuses the content
/// panel for a running one.
pub open spec fn spec_em_handle_action(m: SpecEmulatorsModal, a: EmulatorAction) -> (
    SpecEmulatorsModal,
    Seq<SpecCommand>,
) {
    match a {
        EmulatorAction::Up => (
            SpecEmulatorsModal {
                selected_index: if m.selected_index > 0 {
                    m.selected_index - 1
                } else {
                    0
                },
                ..m
            },
            Seq::empty(),
        ),
        EmulatorAction::Down => (
            SpecEmulatorsModal {
                selected_index: if m.items.len() > 0 {
                    if m.selected_index < m.items.len() - 1 {
                        m.selected_index + 1
                    } else {
                        m.items.len() - 1
                    }
                } else {
                    m.selected_index
                },
                ..m
            },
            Seq::empty(),
        ),
        EmulatorAction::Kill => (
            m,
            match spec_em_selected(m) {
                Some(avd) => match avd.running_serial {
                    Some(serial) => seq![SpecCommand::KillEmulator(serial)],
                    None => Seq::empty(),
                },
                None => Seq::empty(),
            },
        ),
        EmulatorAction::Select => (
            m,
            match spec_em_selected(m) {
                Some(avd) => {
                    if avd.running_serial is Some {
                        seq![
                            SpecCommand::CloseEmulatorsModal,
                            SpecCommand::Focus(crate::pane::Pane::Content),
                        ]
                    } else {
                        seq![SpecCommand::StartEmulator(avd.name)]
                    }
                },
                None => Seq::empty(),
            },
        ),
    }
}

/// The picker's reaction to one key: a bound name becomes an action;
/// anything else is dropped.
pub open spec fn spec_em_handle_key(m: SpecEmulatorsModal, key: KeyChord) -> (
    SpecEmulatorsModal,
    Seq<SpecCommand>,
) {
    match spec_keymap_get(m.keymap, key) {
        Some(name) => match spec_emulator_action_of(name) {
            Some(a) => spec_em_handle_action(m, a),
            None => (m, Seq::empty()),
        },
        None => (m, Seq::empty()),
    }
}

impl EmulatorsModal {
    /// A picker over `items`, cursor at the top.
    pub fn new(items: Vec<Avd>, keymap: SectionKeymap) -> (r: EmulatorsModal)
        ensures
            r@.items == items.deep_view(),
            r@.selected_index == 0,
            r@.keymap == keymap@,
    {
        EmulatorsModal { items, selected_index: 0, keymap }
    }

    /// The images the picker offers.
    pub fn items(&self) -> (r: &Vec<Avd>)
        ensures
            r.deep_view() == self@.items,
    {
        &self.items
    }

    /// The cursor position.
    pub fn selected_index(&self) -> (r: usize)
        ensures
            r == self@.selected_index,
    {
        self.selected_index
    }

    /// React to one key press.
    pub fn handle_key(&mut self, key: KeyChord) -> (r: Vec<Command>)
        ensures
            ({
                let stepped = spec_em_handle_key(old(self)@, key);
                final(self)@ == stepped.0 && r.deep_view() == stepped.1
            }),
    {
        let name = match self.keymap.get(key) {
            Some(name) => name,
            None => {
                let r: Vec<Command> = Vec::new();
                proof {
                    assert(r.deep_view() =~= Seq::<SpecCommand>::empty());
                }
                return r;
            },
        };
        proof {
            assert(name.deep_view() =~= name@);
        }
        let action = match EmulatorAction::from_bytes(name.as_slice()) {
            Some(a) => a,
            None => {
                let r: Vec<Command> = Vec::new();
                proof {
                    assert(r.deep_view() =~= Seq::<SpecCommand>::empty());
                }
                return r;
            },
        };
        match action {
            EmulatorAction::Up => {
                if self.selected_index > 0 {
                    self.selected_index = self.selected_index - 1;
                }
                let r: Vec<Command> = Vec::new();
                proof {
                    assert(r.deep_view() =~= Seq::<SpecCommand>::empty());
                }
                r
            },
            EmulatorAction::Down => {
                if self.items.len() > 0 {
                    if self.selected_index < self.items.len() - 1 {
                        self.selected_index = self.selected_index + 1;
                    } else {
                        self.selected_index = self.items.len() - 1;
                    }
                }
                let r: Vec<Command> = Vec::new();
                proof {
                    assert(r.deep_view() =~= Seq::<SpecCommand>::empty());
                }
                r
            },
            EmulatorAction::Kill => {
                let mut r: Vec<Command> = Vec::new();
                if self.selected_index < self.items.len() {
                    match &self.items[self.selected_index].running_serial {
                        Some(serial) => {
                            let s = copy_bytes(serial);
                            proof {
                                assert(serial.deep_view() =~= serial@);
                            }
                            r.push(Command::KillEmulator(s));
                            proof {
                                assert(r.deep_view() =~= seq![
                                    SpecCommand::KillEmulator(serial@),
                                ]);
                            }
                        },
                        None => {},
                    }
                }
                proof {
                    if r@.len() == 0 {
                        assert(r.deep_view() =~= Seq::<SpecCommand>::empty());
                    }
                }
                r
            },
            EmulatorAction::Select => {
                let mut r: Vec<Command> = Vec::new();
                if self.selected_index < self.items.len() {
                    let avd = &self.items[self.selected_index];
                    if avd.is_running() {
                        r.push(Command::CloseEmulatorsModal);
                        r.push(Command::Focus(crate::pane::Pane::Content));
                        proof {
                            assert(r.deep_view() =~= seq![
                                SpecCommand::CloseEmulatorsModal,
                                SpecCommand::Focus(crate::pane::Pane::Content),
                            ]);
                        }
                    } else {
                        let n = copy_bytes(&avd.name);
                        proof {
                            assert(avd.deep_view().name == avd.name@);
                        }
                        r.push(Command::StartEmulator(n));
                        proof {
                            assert(r.deep_view() =~= seq![SpecCommand::StartEmulator(avd.name@)]);
                        }
                    }
                }
                proof {
                    if r@.len() == 0 {
                        assert(r.deep_view() =~= Seq::<SpecCommand>::empty());
                    }
                }
                r
            },
        }
    }

    /// The picker reacts to no broadcast message; its traffic arrives as key
    /// presses alone.
    pub fn update(&mut self, msg: &Msg) -> (r: Vec<Command>)
        ensures
            final(self)@ == old(self)@,
            r.deep_view() == Seq::<SpecCommand>::empty(),
    {
        let r: Vec<Command> = Vec::new();
        proof {
            assert(r.deep_view() =~= Seq::<SpecCommand>::empty());
        }
        r
    }
}

/// The active modal, when one is open.
pub enum Modal {
    Help(HelpModal),
    Emulators(EmulatorsModal),
}

/// Spec-level image of a `Modal`.
pub enum SpecModal {
    Help,
    Emulators(SpecEmulatorsModal),
}

impl View for Modal {
    type V = SpecModal;

    open spec fn view(&self) -> SpecModal {
        match self {
            Modal::Help(_) => SpecModal::Help,
            Modal::Emulators(m) => SpecModal::Emulators(m@),
        }
    }
}

impl DeepView for Modal {
    type V = SpecModal;

    open spec fn deep_view(&self) -> SpecModal {
        self.view()
    }
}

} // verus!
