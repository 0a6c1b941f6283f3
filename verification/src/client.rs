//! The device-bridge client's configuration and the roster join.
//!
//! Running the bridge binary is outside work; this module holds what the
//! core knows about the client — the two executable paths it was configured
//! with — and the pure join that builds the emulator-image roster out of the
//! declared image names and the per-device name queries the caller already
//! performed.

use vstd::prelude::*;

use crate::device::{copy_bytes, ConnectionType, Device};
use crate::emulator::{Avd, SpecAvd};
use crate::text::bytes_eq;

verus! {

/// One running emulator device together with the image name it reported.
#[derive(Debug, Clone, PartialEq, Eq)]
pub struct RunningEmulator {
    pub serial: Vec<u8>,
    pub name: Vec<u8>,
}

/// Spec-level image of a `RunningEmulator`.
pub struct SpecRunningEmulator {
    pub serial: Seq<u8>,
    pub name: Seq<u8>,
}

impl View for RunningEmulator {
    type V = SpecRunningEmulator;

    open spec fn view(&self) -> SpecRunningEmulator {
        SpecRunningEmulator { serial: self.serial@, name: self.name@ }
    }
}

impl DeepView for RunningEmulator {
    type V = SpecRunningEmulator;

    open spec fn deep_view(&self) -> SpecRunningEmulator {
        self.view()
    }
}

/// Configuration of the device-bridge client: where the bridge binary and
/// the emulator launcher live.  All process invocation happens outside the
/// core, against these paths.
pub struct AdbClient {
    adb_path: Vec<u8>,
    emulator_path: Vec<u8>,
}

/// Spec-level image of an `AdbClient`.
pub struct SpecAdbClient {
    pub adb_path: Seq<u8>,
    pub emulator_path: Seq<u8>,
}

impl View for AdbClient {
    type V = SpecAdbClient;

    closed spec fn view(&self) -> SpecAdbClient {
        SpecAdbClient { adb_path: self.adb_path@, emulator_path: self.emulator_path@ }
    }
}

/// The serials of the devices of emulator kind, in roster order.
pub open spec fn spec_running_emulator_serials(devices: Seq<crate::device::SpecDevice>) -> Seq<
    Seq<u8>,
>
    decreases devices.len(),
{
    if devices.len() == 0 {
        Seq::empty()
    } else if devices[0].connection_type == ConnectionType::Emulator {
        seq![devices[0].serial] + spec_running_emulator_serials(devices.drop_first())
    } else {
        spec_running_emulator_serials(devices.drop_first())
    }
}

/// The serials of the emulator-kind devices of a roster, in order: the
/// devices whose image names the caller must query one by one.
pub fn running_emulator_serials(devices: &Vec<Device>) -> (r: Vec<Vec<u8>>)
    ensures
        r.deep_view() == spec_running_emulator_serials(devices.deep_view()),
{
    let ghost dv = devices.deep_view();
    let mut r: Vec<Vec<u8>> = Vec::new();
    proof {
        assert(dv.subrange(0, dv.len() as int) =~= dv);
        assert(r.deep_view() =~~= Seq::<Seq<u8>>::empty());
        assert(Seq::<Seq<u8>>::empty() + spec_running_emulator_serials(dv)
            =~= spec_running_emulator_serials(dv));
    }
    let mut k: usize = 0;
    while k < devices.len()
        invariant
            k <= devices@.len(),
            devices@.len() == dv.len(),
            forall|j: int| 0 <= j < devices@.len() ==> devices@[j]@ == dv[j],
            spec_running_emulator_serials(dv) == r.deep_view() + spec_running_emulator_serials(
                dv.subrange(k as int, dv.len() as int),
            ),
        decreases devices@.len() - k,
    {
        let ghost pre = dv.subrange(k as int, dv.len() as int);
        let ghost r0 = r.deep_view();
        proof {
            assert(pre[0] == dv[k as int]);
            assert(devices@[k as int]@ == pre[0]);
            assert(pre.drop_first() =~= dv.subrange(k + 1, dv.len() as int));
        }
        let is_emu = match devices[k].connection_type {
            ConnectionType::Emulator => true,
            _ => false,
        };
        if is_emu {
            let s = copy_bytes(&devices[k].serial);
            let ghost sv = s@;
            r.push(s);
            proof {
                assert(r.deep_view() =~~= r0 + seq![sv]);
                assert(r0 + (seq![sv] + spec_running_emulator_serials(pre.drop_first())) =~= (r0
                    + seq![sv]) + spec_running_emulator_serials(pre.drop_first()));
            }
        } else {
            proof {
                assert(spec_running_emulator_serials(pre) == spec_running_emulator_serials(
                    pre.drop_first(),
                ));
            }
        }
        k = k + 1;
    }
    proof {
        assert(dv.subrange(dv.len() as int, dv.len() as int)
            =~= Seq::<crate::device::SpecDevice>::empty());
        assert(r.deep_view() =~~= spec_running_emulator_serials(dv));
    }
    r
}

/// Serial of the first running emulator that reported `name`, if any.
pub open spec fn spec_lookup_serial(running: Seq<SpecRunningEmulator>, name: Seq<u8>) -> Option<
    Seq<u8>,
>
    decreases running.len(),
{
    if running.len() == 0 {
        None
    } else if running[0].name == name {
        Some(running[0].serial)
    } else {
        spec_lookup_serial(running.drop_first(), name)
    }
}

fn lookup_serial(running: &Vec<RunningEmulator>, name: &Vec<u8>) -> (r: Option<Vec<u8>>)
    ensures
        r.deep_view() == spec_lookup_serial(running.deep_view(), name@),
{
    let ghost rv = running.deep_view();
    proof {
        assert(rv.subrange(0, rv.len() as int) =~= rv);
    }
    let mut k: usize = 0;
    while k < running.len()
        invariant
            k <= running@.len(),
            rv == running.deep_view(),
            running@.len() == rv.len(),
            forall|j: int| 0 <= j < running@.len() ==> running@[j]@ == rv[j],
            spec_lookup_serial(rv, name@) == spec_lookup_serial(
                rv.subrange(k as int, rv.len() as int),
                name@,
            ),
        decreases running@.len() - k,
    {
        let ghost pre = rv.subrange(k as int, rv.len() as int);
        proof {
            assert(pre[0] == rv[k as int]);
            assert(running@[k as int]@ == pre[0]);
            assert(pre.drop_first() =~= rv.subrange(k + 1, rv.len() as int));
        }
        if bytes_eq(running[k].name.as_slice(), name.as_slice()) {
            let s = copy_bytes(&running[k].serial);
            proof {
                assert(s.deep_view() =~= s@);
            }
            return Some(s);
        }
        k = k + 1;
    }
    proof {
        assert(rv.subrange(rv.len() as int, rv.len() as int)
            =~= Seq::<SpecRunningEmulator>::empty());
    }
    None
}

/// Some image in `avds` already carries `name`.
pub open spec fn spec_has_name(avds: Seq<SpecAvd>, name: Seq<u8>) -> bool {
    exists|i: int| 0 <= i < avds.len() && avds[i].name == name
}

fn has_name(avds: &Vec<Avd>, name: &Vec<u8>) -> (r: bool)
    ensures
        r == spec_has_name(avds.deep_view(), name@),
{
    let ghost av = avds.deep_view();
    let mut k: usize = 0;
    while k < avds.len()
        invariant
            k <= avds@.len(),
            av == avds.deep_view(),
            avds@.len() == av.len(),
            forall|j: int| 0 <= j < avds@.len() ==> avds@[j]@ == av[j],
            forall|j: int| 0 <= j < k ==> av[j].name != name@,
        decreases avds@.len() - k,
    {
        if bytes_eq(avds[k].name.as_slice(), name.as_slice()) {
            proof {
                assert(av[k as int].name == name@);
                assert(spec_has_name(av, name@));
            }
            return true;
        }
        k = k + 1;
    }
    proof {
        if spec_has_name(av, name@) {
            let i = choose|i: int| 0 <= i < av.len() && av[i].name == name@;
            assert(av[i].name != name@);
        }
    }
    false
}

/// The declared images joined with the running set: each declared name, in
/// order, paired with the serial of the first running emulator that reported
/// it, or nothing when none did.
pub open spec fn spec_declared_avds(
    declared: Seq<Seq<u8>>,
    running: Seq<SpecRunningEmulator>,
) -> Seq<SpecAvd> {
    Seq::new(
        declared.len(),
        |i: int| SpecAvd { name: declared[i], running_serial: spec_lookup_serial(running, declared[i]) },
    )
}

/// Synthesized entries appended for running emulators whose name is not on
/// the list yet: name equality dedupes, so no name appears twice.
pub open spec fn spec_append_synthesized(
    avds: Seq<SpecAvd>,
    running: Seq<SpecRunningEmulator>,
) -> Seq<SpecAvd>
    decreases running.len(),
{
    if running.len() == 0 {
        avds
    } else {
        let p = running[0];
        if spec_has_name(avds, p.name) {
            spec_append_synthesized(avds, running.drop_first())
        } else {
            spec_append_synthesized(
                avds.push(SpecAvd { name: p.name, running_serial: Some(p.serial) }),
                running.drop_first(),
            )
        }
    }
}

/// The emulator-image roster built from the declared names and the running
/// set: every declared image in order, then a synthesized entry for each
/// running emulator whose name was not declared.
pub open spec fn spec_avds_with_status(
    declared: Seq<Seq<u8>>,
    running: Seq<SpecRunningEmulator>,
) -> Seq<SpecAvd> {
    spec_append_synthesized(spec_declared_avds(declared, running), running)
}

impl AdbClient {
    /// A client configured with the paths of the bridge binary and the
    /// emulator launcher.
    pub fn new(adb_path: Vec<u8>, emulator_path: Vec<u8>) -> (r: AdbClient)
        ensures
            r@.adb_path == adb_path@,
            r@.emulator_path == emulator_path@,
    {
        AdbClient { adb_path, emulator_path }
    }

    /// Path of the bridge binary.
    pub fn adb_path(&self) -> (r: &Vec<u8>)
        ensures
            r@ == self@.adb_path,
    {
        &self.adb_path
    }

    /// Path of the emulator launcher.
    pub fn emulator_path(&self) -> (r: &Vec<u8>)
        ensures
            r@ == self@.emulator_path,
    {
        &self.emulator_path
    }

    /// Join the declared image names with the running emulators the caller
    /// queried: one entry per declared name, in order, marked running when a
    /// query reported that name; then one synthesized running entry per
    /// queried name that was not declared, deduplicated by name.
    pub fn avds_with_status(&self, declared: &Vec<Vec<u8>>, running: &Vec<RunningEmulator>) -> (r:
        Vec<Avd>)
        ensures
            r.deep_view() == spec_avds_with_status(declared.deep_view(), running.deep_view()),
    {
        let ghost dv = declared.deep_view();
        let ghost rv = running.deep_view();
        let mut avds: Vec<Avd> = Vec::new();
        proof {
            assert(avds.deep_view() =~= spec_declared_avds(dv, rv).subrange(0, 0));
        }
        let mut k: usize = 0;
        while k < declared.len()
            invariant
                k <= declared@.len(),
                dv == declared.deep_view(),
                rv == running.deep_view(),
                declared@.len() == dv.len(),
                forall|j: int| 0 <= j < declared@.len() ==> declared@[j]@ == dv[j],
                running@.len() == rv.len(),
                forall|j: int| 0 <= j < running@.len() ==> running@[j]@ == rv[j],
                avds.deep_view() == spec_declared_avds(dv, rv).subrange(0, k as int),
            decreases declared@.len() - k,
        {
            let ghost a0 = avds.deep_view();
            let name = copy_bytes(&declared[k]);
            let serial = lookup_serial(running, &name);
            let ghost nv = name@;
            let ghost sv = serial.deep_view();
            let a = Avd { name, running_serial: serial };
            proof {
                assert(a@ == SpecAvd { name: nv, running_serial: sv });
                assert(nv == dv[k as int]);
                assert(sv == spec_lookup_serial(rv, dv[k as int]));
                assert(spec_declared_avds(dv, rv)[k as int] == SpecAvd {
                    name: dv[k as int],
                    running_serial: spec_lookup_serial(rv, dv[k as int]),
                });
                assert(a@ == spec_declared_avds(dv, rv)[k as int]);
            }
            avds.push(a);
            k = k + 1;
            proof {
                assert(avds.deep_view() =~= a0.push(a@));
                assert(avds.deep_view() =~= spec_declared_avds(dv, rv).subrange(0, k as int));
            }
        }
        proof {
            assert(spec_declared_avds(dv, rv).subrange(0, dv.len() as int) =~= spec_declared_avds(
                dv,
                rv,
            ));
            assert(rv.subrange(0, rv.len() as int) =~= rv);
        }
        let mut k: usize = 0;
        while k < running.len()
            invariant
                k <= running@.len(),
                rv == running.deep_view(),
                running@.len() == rv.len(),
                forall|j: int| 0 <= j < running@.len() ==> running@[j]@ == rv[j],
                spec_avds_with_status(dv, rv) == spec_append_synthesized(
                    avds.deep_view(),
                    rv.subrange(k as int, rv.len() as int),
                ),
            decreases running@.len() - k,
        {
            let ghost pre = rv.subrange(k as int, rv.len() as int);
            let ghost a0 = avds.deep_view();
            proof {
                assert(pre[0] == rv[k as int]);
                assert(running@[k as int]@ == pre[0]);
                assert(pre.drop_first() =~= rv.subrange(k + 1, rv.len() as int));
            }
            if !has_name(&avds, &running[k].name) {
                let nm = copy_bytes(&running[k].name);
                let sr = copy_bytes(&running[k].serial);
                proof {
                    assert(sr.deep_view() =~= sr@);
                }
                let a = Avd { name: nm, running_serial: Some(sr) };
                let ghost av = a@;
                avds.push(a);
                proof {
                    assert(avds.deep_view() =~= a0.push(av));
                    assert(av == SpecAvd { name: pre[0].name, running_serial: Some(pre[0].serial) });
                }
            }
            k = k + 1;
        }
        proof {
            assert(rv.subrange(rv.len() as int, rv.len() as int)
                =~= Seq::<SpecRunningEmulator>::empty());
        }
        avds
    }
}

/// Names of a roster of images, position by position.
pub open spec fn spec_avd_names_of(avds: Seq<SpecAvd>) -> Seq<Seq<u8>> {
    avds.map_values(|a: SpecAvd| a.name)
}

/// No image name appears twice.
pub open spec fn spec_names_distinct(avds: Seq<SpecAvd>) -> bool {
    forall|i: int, j: int| 0 <= i < j < avds.len() ==> avds[i].name != avds[j].name
}

proof fn lemma_append_synthesized_distinct(avds: Seq<SpecAvd>, running: Seq<SpecRunningEmulator>)
    requires
        spec_names_distinct(avds),
    ensures
        spec_names_distinct(spec_append_synthesized(avds, running)),
    decreases running.len(),
{
    if running.len() > 0 {
        let p = running[0];
        if spec_has_name(avds, p.name) {
            lemma_append_synthesized_distinct(avds, running.drop_first());
        } else {
            let pushed = avds.push(SpecAvd { name: p.name, running_serial: Some(p.serial) });
            assert forall|i: int, j: int| 0 <= i < j < pushed.len() implies pushed[i].name
                != pushed[j].name by {
                if j == pushed.len() - 1 {
                    assert(!spec_has_name(avds, p.name));
                    assert(pushed[i] == avds[i]);
                }
            }
            lemma_append_synthesized_distinct(pushed, running.drop_first());
        }
    }
}

/// An image observed running under a name that is also declared is never
/// duplicated: when the declared names are pairwise distinct, so are the
/// names of the joined roster, whatever the running set reports.
pub proof fn lemma_avds_with_status_names_distinct(
    declared: Seq<Seq<u8>>,
    running: Seq<SpecRunningEmulator>,
)
    requires
        forall|i: int, j: int| 0 <= i < j < declared.len() ==> declared[i] != declared[j],
    ensures
        spec_names_distinct(spec_avds_with_status(declared, running)),
{
    let base = spec_declared_avds(declared, running);
    assert forall|i: int, j: int| 0 <= i < j < base.len() implies base[i].name != base[j].name by {
        assert(base[i].name == declared[i]);
        assert(base[j].name == declared[j]);
    }
    lemma_append_synthesized_distinct(base, running);
}

} // verus!
