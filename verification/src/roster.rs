//! Roster reconciliation: keeping a selection cursor valid as its list is
//! replaced.
//!
//! When a fresh list arrives, the cursor is clamped into the new bounds, and
//! "the selection changed" is decided by comparing the key under the new
//! cursor with the previously selected key — not by comparing indices, since
//! a list can shrink or reorder without the logical selection changing.

use vstd::prelude::*;

use crate::text::bytes_eq;

verus! {

/// The cursor after a list of length `len` replaces the old one: zero for an
/// empty list, otherwise the old cursor clamped to the last index.
pub open spec fn spec_clamp_index(len: int, prev: int) -> int {
    if len == 0 {
        0
    } else if prev < len - 1 {
        prev
    } else {
        len - 1
    }
}

/// The key under cursor `i`, when the cursor is in bounds.
pub open spec fn spec_selected_key(keys: Seq<Seq<u8>>, i: int) -> Option<Seq<u8>> {
    if 0 <= i < keys.len() {
        Some(keys[i])
    } else {
        None
    }
}

/// One reconciliation step: the new cursor, and whether the key under it
/// differs from the previously selected key.
pub open spec fn spec_reconcile(
    keys: Seq<Seq<u8>>,
    prev_index: int,
    prev_key: Option<Seq<u8>>,
) -> (int, bool) {
    let ni = spec_clamp_index(keys.len() as int, prev_index);
    (ni, spec_selected_key(keys, ni) != prev_key)
}

/// Clamp a cursor into the bounds of a list of length `len`.
pub fn clamp_index(len: usize, prev: usize) -> (r: usize)
    ensures
        r == spec_clamp_index(len as int, prev as int),
{
    if len == 0 {
        0
    } else if prev < len - 1 {
        prev
    } else {
        len - 1
    }
}

/// Whether two optional keys are equal.
pub fn key_eq(a: &Option<Vec<u8>>, b: &Option<Vec<u8>>) -> (r: bool)
    ensures
        r == (a.deep_view() == b.deep_view()),
{
    match (a, b) {
        (Some(x), Some(y)) => {
            let e = bytes_eq(x.as_slice(), y.as_slice());
            proof {
                assert(x.deep_view() =~= x@);
                assert(y.deep_view() =~= y@);
                if x@ == y@ {
                    assert(a.deep_view() == b.deep_view());
                }
            }
            e
        },
        (None, None) => true,
        _ => false,
    }
}

/// Reconcile a selection against a freshly arrived list of keys: clamp the
/// cursor, and report a change exactly when the key under the new cursor
/// differs from the previously selected key.
pub fn reconcile(keys: &Vec<Vec<u8>>, prev_index: usize, prev_key: &Option<Vec<u8>>) -> (r: (
    usize,
    bool,
))
    ensures
        (r.0 as int, r.1) == spec_reconcile(keys.deep_view(), prev_index as int, prev_key.deep_view()),
{
    let ghost kv = keys.deep_view();
    let ni = clamp_index(keys.len(), prev_index);
    let new_key: Option<Vec<u8>> = if ni < keys.len() {
        let c = crate::device::copy_bytes(&keys[ni]);
        proof {
            assert(c.deep_view() =~= c@);
        }
        Some(c)
    } else {
        None
    };
    proof {
        assert(new_key.deep_view() == spec_selected_key(kv, ni as int));
    }
    let changed = !key_eq(&new_key, prev_key);
    (ni, changed)
}

/// The reconciled cursor always lands in `[0, max(0, len - 1)]`: zero on an
/// empty list, and never past the end of a non-empty one.
pub proof fn lemma_reconcile_index_in_range(
    keys: Seq<Seq<u8>>,
    prev_index: int,
    prev_key: Option<Seq<u8>>,
)
    requires
        prev_index >= 0,
    ensures
        0 <= spec_reconcile(keys, prev_index, prev_key).0,
        keys.len() == 0 ==> spec_reconcile(keys, prev_index, prev_key).0 == 0,
        keys.len() > 0 ==> spec_reconcile(keys, prev_index, prev_key).0 <= keys.len() - 1,
{
}

/// Reconciling the same roster twice in a row reports no change the second
/// time: once the cursor has settled on a key, feeding the identical list
/// again leaves the selection where it was.
pub proof fn lemma_reconcile_idempotent(
    keys: Seq<Seq<u8>>,
    prev_index: int,
    prev_key: Option<Seq<u8>>,
)
    requires
        prev_index >= 0,
    ensures
        ({
            let first = spec_reconcile(keys, prev_index, prev_key);
            spec_reconcile(keys, first.0, spec_selected_key(keys, first.0)).1 == false
        }),
{
}

} // verus!
