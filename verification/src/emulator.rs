//! Emulator images (AVDs) and the parser for the declared-image listing.
//!
//! An image is rebuilt on every refresh by joining the bridge's declared
//! image names with the set of running emulator devices; `running_serial`
//! is present exactly when a live emulator device reports the image's name.

use vstd::prelude::*;
use vstd::string::StringSliceAdditionalSpecFns;

use crate::device::{copy_bytes, spec_underscores_to_spaces, underscores_to_spaces};
use crate::text::{lines, spec_lines, spec_trim, trim};

verus! {

/// One emulator image: its declared name and, when it is running, the
/// serial of the device it runs as.
#[derive(Debug, Clone, PartialEq, Eq)]
pub struct Avd {
    pub name: Vec<u8>,
    pub running_serial: Option<Vec<u8>>,
}

/// Spec-level image of an `Avd`.
pub struct SpecAvd {
    pub name: Seq<u8>,
    pub running_serial: Option<Seq<u8>>,
}

impl View for Avd {
    type V = SpecAvd;

    open spec fn view(&self) -> SpecAvd {
        SpecAvd { name: self.name@, running_serial: self.running_serial.deep_view() }
    }
}

impl DeepView for Avd {
    type V = SpecAvd;

    open spec fn deep_view(&self) -> SpecAvd {
        self.view()
    }
}

impl Avd {
    /// Whether a live device currently runs this image.
    pub fn is_running(&self) -> (r: bool)
        ensures
            r == (self@.running_serial is Some),
    {
        self.running_serial.is_some()
    }

    /// The name shown for this image: underscores become spaces.
    pub fn display_name(&self) -> (r: Vec<u8>)
        ensures
            r@ == spec_underscores_to_spaces(self@.name),
    {
        underscores_to_spaces(self.name.as_slice())
    }

    /// Field-for-field copy.
    pub fn duplicate(&self) -> (r: Avd)
        ensures
            r@ == self@,
    {
        Avd {
            name: copy_bytes(&self.name),
            running_serial: match &self.running_serial {
                Some(s) => Some(copy_bytes(s)),
                None => None,
            },
        }
    }
}

/// The declared image names of a listing: each line trimmed, empty lines
/// dropped, order kept.
pub open spec fn spec_avd_names(ls: Seq<Seq<u8>>) -> Seq<Seq<u8>>
    decreases ls.len(),
{
    if ls.len() == 0 {
        Seq::empty()
    } else {
        let t = spec_trim(ls[0]);
        if t.len() == 0 {
            spec_avd_names(ls.drop_first())
        } else {
            seq![t] + spec_avd_names(ls.drop_first())
        }
    }
}

/// The image names the raw declared-image listing holds.
pub open spec fn spec_parse_avd_list(s: Seq<u8>) -> Seq<Seq<u8>> {
    spec_avd_names(spec_lines(s))
}

/// Parse the bridge's declared-image listing: one name per non-empty line,
/// trimmed, in order.
pub fn parse_avd_list(output: &str) -> (r: Vec<Vec<u8>>)
    ensures
        r.deep_view() == spec_parse_avd_list(output.spec_bytes()),
{
    let bytes = output.as_bytes();
    let ls = lines(bytes);
    let ghost ls_v = spec_lines(bytes@);
    let mut r: Vec<Vec<u8>> = Vec::new();
    proof {
        assert(ls_v.subrange(0, ls_v.len() as int) =~= ls_v);
        assert(r.deep_view() =~~= Seq::<Seq<u8>>::empty());
        assert(Seq::<Seq<u8>>::empty() + spec_avd_names(ls_v) =~= spec_avd_names(ls_v));
    }
    let mut k: usize = 0;
    while k < ls.len()
        invariant
            k <= ls@.len(),
            ls@.len() == ls_v.len(),
            forall|j: int| 0 <= j < ls@.len() ==> ls@[j]@ == ls_v[j],
            spec_avd_names(ls_v) == r.deep_view() + spec_avd_names(
                ls_v.subrange(k as int, ls_v.len() as int),
            ),
        decreases ls@.len() - k,
    {
        let ghost pre = ls_v.subrange(k as int, ls_v.len() as int);
        let ghost r0 = r.deep_view();
        proof {
            assert(pre[0] == ls_v[k as int]);
            assert(ls@[k as int]@ == pre[0]);
            assert(pre.drop_first() =~= ls_v.subrange(k + 1, ls_v.len() as int));
        }
        let t = trim(ls[k].as_slice());
        if t.len() > 0 {
            let ghost tv = t@;
            r.push(t);
            proof {
                assert(r.deep_view() =~~= r0 + seq![tv]);
                assert(spec_avd_names(pre) == seq![tv] + spec_avd_names(pre.drop_first()));
                assert(r0 + (seq![tv] + spec_avd_names(pre.drop_first())) =~= (r0 + seq![tv])
                    + spec_avd_names(pre.drop_first()));
            }
        } else {
            proof {
                assert(spec_avd_names(pre) == spec_avd_names(pre.drop_first()));
            }
        }
        k = k + 1;
    }
    proof {
        assert(ls_v.subrange(ls_v.len() as int, ls_v.len() as int) =~= Seq::<Seq<u8>>::empty());
        assert(r.deep_view() =~~= spec_avd_names(ls_v));
    }
    r
}

} // verus!
