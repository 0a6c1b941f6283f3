//! The focus panels and their fixed cycle.
//!
//! Exactly one panel owns keyboard input at a time; a global cycle action
//! advances the focus around the fixed ring of three panels.

use vstd::prelude::*;

verus! {

/// The three focusable panels, in cycle order.
#[derive(Debug, Clone, Copy, PartialEq, Eq, Hash, Structural)]
pub enum Pane {
    DeviceList,
    Emulators,
    Content,
}

/// The panel after `p` in the fixed cycle.
pub open spec fn spec_pane_next(p: Pane) -> Pane {
    match p {
        Pane::DeviceList => Pane::Emulators,
        Pane::Emulators => Pane::Content,
        Pane::Content => Pane::DeviceList,
    }
}

/// The panel before `p` in the fixed cycle.
pub open spec fn spec_pane_prev(p: Pane) -> Pane {
    match p {
        Pane::DeviceList => Pane::Content,
        Pane::Emulators => Pane::DeviceList,
        Pane::Content => Pane::Emulators,
    }
}

impl Pane {
    /// The panel a cycle index denotes.
    pub fn from_index(i: u8) -> (r: Pane)
        requires
            i < 3,
        ensures
            (i == 0 ==> r == Pane::DeviceList) && (i == 1 ==> r == Pane::Emulators) && (i == 2
                ==> r == Pane::Content),
    {
        if i == 0 {
            Pane::DeviceList
        } else if i == 1 {
            Pane::Emulators
        } else {
            Pane::Content
        }
    }

    /// Advance the focus one panel forward in the cycle.
    pub fn next(self) -> (r: Pane)
        ensures
            r == spec_pane_next(self),
    {
        match self {
            Pane::DeviceList => Pane::Emulators,
            Pane::Emulators => Pane::Content,
            Pane::Content => Pane::DeviceList,
        }
    }

    /// Move the focus one panel backward in the cycle.
    pub fn prev(self) -> (r: Pane)
        ensures
            r == spec_pane_prev(self),
    {
        match self {
            Pane::DeviceList => Pane::Content,
            Pane::Emulators => Pane::DeviceList,
            Pane::Content => Pane::Emulators,
        }
    }
}

impl Default for Pane {
    /// Focus starts at the device list.
    fn default() -> (r: Pane)
        ensures
            r == Pane::DeviceList,
    {
        Pane::DeviceList
    }
}

/// What a panel's renderer receives: the current focus, read-only.  The
/// static configuration that travels with it belongs to the renderer, which
/// lives outside this crate.
#[derive(Debug, Clone, Copy, PartialEq, Eq, Structural)]
pub struct DrawContext {
    pub focus: Pane,
}

/// Stepping backward undoes stepping forward, and the cycle visits all
/// three panels before returning: the cycle is a fixed ring.
pub proof fn lemma_pane_cycle(p: Pane)
    ensures
        spec_pane_prev(spec_pane_next(p)) == p,
        spec_pane_next(spec_pane_prev(p)) == p,
        spec_pane_next(p) != p,
        spec_pane_next(spec_pane_next(spec_pane_next(p))) == p,
{
}

} // verus!
