//! Key chords and the per-panel key lookup table.
//!
//! The configuration loader that fills these tables is an external
//! collaborator; the core sees only an opaque mapping from a key chord to a
//! named action, and asks no more of it than "recognized or not".

use vstd::prelude::*;

use crate::device::copy_bytes;

verus! {

/// One key press: a key code and a modifier bit set, as plain values.
#[derive(Debug, Clone, Copy, PartialEq, Eq, Structural)]
pub struct KeyChord {
    pub code: u32,
    pub mods: u8,
}

impl View for KeyChord {
    type V = KeyChord;

    open spec fn view(&self) -> KeyChord {
        *self
    }
}

impl DeepView for KeyChord {
    type V = KeyChord;

    open spec fn deep_view(&self) -> KeyChord {
        *self
    }
}

impl KeyChord {
    /// The chord of a plain character key with no modifiers.
    pub fn of_char(c: char) -> (r: KeyChord)
        ensures
            r == (KeyChord { code: c as u32, mods: 0 }),
    {
        KeyChord { code: c as u32, mods: 0 }
    }
}

/// The value bound to `key`: the newest binding wins.
pub open spec fn spec_keymap_get(
    entries: Seq<(KeyChord, Seq<u8>)>,
    key: KeyChord,
) -> Option<Seq<u8>>
    decreases entries.len(),
{
    if entries.len() == 0 {
        None
    } else if entries[0].0 == key {
        Some(entries[0].1)
    } else {
        spec_keymap_get(entries.drop_first(), key)
    }
}

/// One panel's key bindings: key chords mapped to action names.
#[derive(Debug, Clone, PartialEq, Eq)]
pub struct SectionKeymap {
    entries: Vec<(KeyChord, Vec<u8>)>,
}

impl View for SectionKeymap {
    type V = Seq<(KeyChord, Seq<u8>)>;

    closed spec fn view(&self) -> Seq<(KeyChord, Seq<u8>)> {
        self.entries.deep_view()
    }
}

impl SectionKeymap {
    /// An empty table.
    pub fn new() -> (r: SectionKeymap)
        ensures
            r@ == Seq::<(KeyChord, Seq<u8>)>::empty(),
    {
        let r = SectionKeymap { entries: Vec::new() };
        proof {
            assert(r@ =~= Seq::<(KeyChord, Seq<u8>)>::empty());
        }
        r
    }

    /// Bind `key` to `action`; a newer binding shadows an older one.
    pub fn insert(&mut self, key: KeyChord, action: Vec<u8>)
        ensures
            final(self)@ == seq![(key, action@)] + old(self)@,
    {
        let ghost av = action@;
        self.entries.insert(0, (key, action));
        proof {
            assert(self@ =~~= seq![(key, av)] + old(self)@);
        }
    }

    /// The action name bound to `key`, if any.
    pub fn get(&self, key: KeyChord) -> (r: Option<Vec<u8>>)
        ensures
            r.deep_view() == spec_keymap_get(self@, key),
    {
        let ghost ev = self@;
        let mut k: usize = 0;
        proof {
            assert(ev.subrange(0, ev.len() as int) =~= ev);
        }
        while k < self.entries.len()
            invariant
                k <= self.entries@.len(),
                ev == self@,
                self.entries@.len() == ev.len(),
                forall|j: int|
                    0 <= j < self.entries@.len() ==> #[trigger] self.entries@[j].0 == ev[j].0
                        && self.entries@[j].1@ == ev[j].1,
                spec_keymap_get(ev, key) == spec_keymap_get(
                    ev.subrange(k as int, ev.len() as int),
                    key,
                ),
            decreases self.entries@.len() - k,
        {
            let ghost pre = ev.subrange(k as int, ev.len() as int);
            proof {
                assert(pre[0] == ev[k as int]);
                assert(pre.drop_first() =~= ev.subrange(k + 1, ev.len() as int));
            }
            let hit = {
                let e = &self.entries[k];
                e.0.code == key.code && e.0.mods == key.mods
            };
            if hit {
                let v = copy_bytes(&self.entries[k].1);
                proof {
                    assert(Some(v).deep_view() == Some(v@));
                }
                return Some(v);
            }
            k = k + 1;
        }
        proof {
            assert(ev.subrange(ev.len() as int, ev.len() as int)
                =~= Seq::<(KeyChord, Seq<u8>)>::empty());
        }
        None
    }

    /// Entry-for-entry copy.
    pub fn duplicate(&self) -> (r: SectionKeymap)
        ensures
            r@ == self@,
    {
        let mut entries: Vec<(KeyChord, Vec<u8>)> = Vec::new();
        let ghost ev = self@;
        let mut k: usize = 0;
        proof {
            assert(entries.deep_view() =~~= ev.subrange(0, 0));
        }
        while k < self.entries.len()
            invariant
                k <= self.entries@.len(),
                ev == self@,
                self.entries@.len() == ev.len(),
                forall|j: int|
                    0 <= j < self.entries@.len() ==> #[trigger] self.entries@[j].0 == ev[j].0
                        && self.entries@[j].1@ == ev[j].1,
                entries.deep_view() == ev.subrange(0, k as int),
            decreases self.entries@.len() - k,
        {
            let ghost e0 = entries.deep_view();
            let key = self.entries[k].0;
            let action = copy_bytes(&self.entries[k].1);
            let ghost av = action@;
            entries.push((key, action));
            k = k + 1;
            proof {
                assert(entries.deep_view() =~~= e0.push((key, av)));
                assert(entries.deep_view() =~= ev.subrange(0, k as int));
            }
        }
        proof {
            assert(ev.subrange(0, ev.len() as int) =~= ev);
        }
        let r = SectionKeymap { entries };
        r
    }
}

} // verus!
