//! Devices as the bridge reports them, and the parser for the roster listing.
//!
//! A device is recreated wholesale on every roster refresh; only its serial
//! carries identity across refreshes.  The listing parser turns the raw text
//! of the bridge's device enumeration into structured records, one per
//! well-formed line, skipping the banner and anything malformed.

use vstd::prelude::*;
use vstd::string::StringSliceAdditionalSpecFns;

use crate::text::{
    bytes_eq, contains_byte, lines, spec_find, spec_lines, spec_starts_with, spec_tokens,
    spec_trim, starts_with, subrange_vec, tokens, trim,
};

verus! {

/// Connection state of a device, from the second column of the listing.
#[derive(Debug, Clone, PartialEq, Eq)]
pub enum DeviceState {
    Online,
    Offline,
    Unauthorized,
    Unknown(Vec<u8>),
}

/// Spec-level image of a `DeviceState`.
pub enum SpecDeviceState {
    Online,
    Offline,
    Unauthorized,
    Unknown(Seq<u8>),
}

impl View for DeviceState {
    type V = SpecDeviceState;

    open spec fn view(&self) -> SpecDeviceState {
        match self {
            DeviceState::Online => SpecDeviceState::Online,
            DeviceState::Offline => SpecDeviceState::Offline,
            DeviceState::Unauthorized => SpecDeviceState::Unauthorized,
            DeviceState::Unknown(s) => SpecDeviceState::Unknown(s@),
        }
    }
}

/// The label the bridge uses for a state, also shown in telemetry.
pub open spec fn spec_state_label(s: SpecDeviceState) -> Seq<u8> {
    match s {
        SpecDeviceState::Online => "device".spec_bytes(),
        SpecDeviceState::Offline => "offline".spec_bytes(),
        SpecDeviceState::Unauthorized => "unauthorized".spec_bytes(),
        SpecDeviceState::Unknown(raw) => raw,
    }
}

impl DeviceState {
    /// The textual label of this state, as the listing spells it.
    pub fn label(&self) -> (r: Vec<u8>)
        ensures
            r@ == spec_state_label(self@),
    {
        match self {
            DeviceState::Online => {
                let b = "device".as_bytes();
                subrange_vec(b, 0, b.len())
            },
            DeviceState::Offline => {
                let b = "offline".as_bytes();
                subrange_vec(b, 0, b.len())
            },
            DeviceState::Unauthorized => {
                let b = "unauthorized".as_bytes();
                subrange_vec(b, 0, b.len())
            },
            DeviceState::Unknown(raw) => copy_bytes(raw),
        }
    }
}

/// How a device is attached: over USB, over TCP, or as a local emulator.
#[derive(Debug, Clone, Copy, PartialEq, Eq, Structural)]
pub enum ConnectionType {
    Usb,
    Tcp,
    Emulator,
}

/// Connection kind derived from the serial alone: an emulator serial has the
/// emulator prefix, a TCP serial holds a colon, anything else is USB.
pub open spec fn spec_connection_type(serial: Seq<u8>) -> ConnectionType {
    if spec_starts_with(serial, "emulator-".spec_bytes()) {
        ConnectionType::Emulator
    } else if serial.contains(58) {
        ConnectionType::Tcp
    } else {
        ConnectionType::Usb
    }
}

/// One attached device, as one line of the roster listing describes it.
#[derive(Debug, Clone, PartialEq, Eq)]
pub struct Device {
    pub serial: Vec<u8>,
    pub state: DeviceState,
    pub model: Option<Vec<u8>>,
    pub product: Option<Vec<u8>>,
    pub transport_id: Option<Vec<u8>>,
    pub connection_type: ConnectionType,
}

/// Spec-level image of a `Device`.
pub struct SpecDevice {
    pub serial: Seq<u8>,
    pub state: SpecDeviceState,
    pub model: Option<Seq<u8>>,
    pub product: Option<Seq<u8>>,
    pub transport_id: Option<Seq<u8>>,
    pub connection_type: ConnectionType,
}

impl View for Device {
    type V = SpecDevice;

    open spec fn view(&self) -> SpecDevice {
        SpecDevice {
            serial: self.serial@,
            state: self.state@,
            model: self.model.deep_view(),
            product: self.product.deep_view(),
            transport_id: self.transport_id.deep_view(),
            connection_type: self.connection_type,
        }
    }
}

impl DeepView for Device {
    type V = SpecDevice;

    open spec fn deep_view(&self) -> SpecDevice {
        self.view()
    }
}

/// Copy of a byte string.
pub fn copy_bytes(v: &Vec<u8>) -> (r: Vec<u8>)
    ensures
        r@ == v@,
{
    let r = subrange_vec(v.as_slice(), 0, v.len());
    proof {
        assert(v@.subrange(0, v@.len() as int) =~= v@);
    }
    r
}

/// Underscores replaced by spaces, for a friendlier display.
pub open spec fn spec_underscores_to_spaces(s: Seq<u8>) -> Seq<u8> {
    s.map_values(|b: u8| if b == 95 { 32u8 } else { b })
}

/// Copy of `s` with every underscore replaced by a space.
pub fn underscores_to_spaces(s: &[u8]) -> (r: Vec<u8>)
    ensures
        r@ == spec_underscores_to_spaces(s@),
{
    let mut r: Vec<u8> = Vec::new();
    let mut i: usize = 0;
    while i < s.len()
        invariant
            i <= s@.len(),
            r@ == spec_underscores_to_spaces(s@.subrange(0, i as int)),
        decreases s@.len() - i,
    {
        let b = s[i];
        if b == 95 {
            r.push(32);
        } else {
            r.push(b);
        }
        i = i + 1;
        proof {
            assert(r@ =~= spec_underscores_to_spaces(s@.subrange(0, i as int)));
        }
    }
    proof {
        assert(s@.subrange(0, s@.len() as int) =~= s@);
    }
    r
}

/// What a device is called in the interface: its model name with underscores
/// replaced by spaces, or its serial when no model was reported.
pub open spec fn spec_display_name(d: SpecDevice) -> Seq<u8> {
    match d.model {
        Some(m) => spec_underscores_to_spaces(m),
        None => d.serial,
    }
}

impl Device {
    /// The name shown for this device in lists and the title bar.
    pub fn display_name(&self) -> (r: Vec<u8>)
        ensures
            r@ == spec_display_name(self@),
    {
        match &self.model {
            Some(m) => underscores_to_spaces(m.as_slice()),
            None => copy_bytes(&self.serial),
        }
    }

    /// Field-for-field copy.
    pub fn duplicate(&self) -> (r: Device)
        ensures
            r@ == self@,
    {
        Device {
            serial: copy_bytes(&self.serial),
            state: match &self.state {
                DeviceState::Online => DeviceState::Online,
                DeviceState::Offline => DeviceState::Offline,
                DeviceState::Unauthorized => DeviceState::Unauthorized,
                DeviceState::Unknown(raw) => DeviceState::Unknown(copy_bytes(raw)),
            },
            model: match &self.model {
                Some(m) => Some(copy_bytes(m)),
                None => None,
            },
            product: match &self.product {
                Some(p) => Some(copy_bytes(p)),
                None => None,
            },
            transport_id: match &self.transport_id {
                Some(t) => Some(copy_bytes(t)),
                None => None,
            },
            connection_type: self.connection_type,
        }
    }
}

/// Element-for-element copy of a device list.
pub fn duplicate_devices(v: &Vec<Device>) -> (r: Vec<Device>)
    ensures
        r.deep_view() == v.deep_view(),
{
    let ghost dv = v.deep_view();
    let mut r: Vec<Device> = Vec::new();
    proof {
        assert(r.deep_view() =~= dv.subrange(0, 0));
    }
    let mut k: usize = 0;
    while k < v.len()
        invariant
            k <= v@.len(),
            dv == v.deep_view(),
            v@.len() == dv.len(),
            forall|j: int| 0 <= j < v@.len() ==> v@[j]@ == dv[j],
            r.deep_view() == dv.subrange(0, k as int),
        decreases v@.len() - k,
    {
        let ghost r0 = r.deep_view();
        let d = v[k].duplicate();
        let ghost dvk = d@;
        r.push(d);
        k = k + 1;
        proof {
            assert(r.deep_view() =~= r0.push(dvk));
            assert(r.deep_view() =~= dv.subrange(0, k as int));
        }
    }
    proof {
        assert(dv.subrange(0, dv.len() as int) =~= dv);
    }
    r
}

/// The state a listing token denotes; an unrecognized token is kept raw.
pub open spec fn spec_device_state(tok: Seq<u8>) -> SpecDeviceState {
    if tok == "device".spec_bytes() {
        SpecDeviceState::Online
    } else if tok == "offline".spec_bytes() {
        SpecDeviceState::Offline
    } else if tok == "unauthorized".spec_bytes() {
        SpecDeviceState::Unauthorized
    } else {
        SpecDeviceState::Unknown(tok)
    }
}

fn device_state_of_token(tok: &Vec<u8>) -> (r: DeviceState)
    ensures
        r@ == spec_device_state(tok@),
{
    if bytes_eq(tok.as_slice(), "device".as_bytes()) {
        DeviceState::Online
    } else if bytes_eq(tok.as_slice(), "offline".as_bytes()) {
        DeviceState::Offline
    } else if bytes_eq(tok.as_slice(), "unauthorized".as_bytes()) {
        DeviceState::Unauthorized
    } else {
        DeviceState::Unknown(copy_bytes(tok))
    }
}

/// The trailing `key:value` tokens of a listing line, folded left to right:
/// a later `model`, `product` or `transport_id` value replaces an earlier
/// one; anything else is ignored.
pub open spec fn spec_kv_fold(
    toks: Seq<Seq<u8>>,
    m: Option<Seq<u8>>,
    p: Option<Seq<u8>>,
    t: Option<Seq<u8>>,
) -> (Option<Seq<u8>>, Option<Seq<u8>>, Option<Seq<u8>>)
    decreases toks.len(),
{
    if toks.len() == 0 {
        (m, p, t)
    } else {
        let tok = toks[0];
        let rest = toks.drop_first();
        match spec_find(tok, 58) {
            Some(i) => {
                let key = tok.subrange(0, i);
                let value = tok.subrange(i + 1, tok.len() as int);
                if key == "model".spec_bytes() {
                    spec_kv_fold(rest, Some(value), p, t)
                } else if key == "product".spec_bytes() {
                    spec_kv_fold(rest, m, Some(value), t)
                } else if key == "transport_id".spec_bytes() {
                    spec_kv_fold(rest, m, p, Some(value))
                } else {
                    spec_kv_fold(rest, m, p, t)
                }
            },
            None => spec_kv_fold(rest, m, p, t),
        }
    }
}

/// The device one listing line describes, or nothing for the banner, an
/// empty line, or a line with fewer than two columns.
pub open spec fn spec_parse_device_line(line: Seq<u8>) -> Option<SpecDevice> {
    let t = spec_trim(line);
    if t.len() == 0 || spec_starts_with(t, "List of".spec_bytes()) {
        None
    } else {
        let toks = spec_tokens(t);
        if toks.len() < 2 {
            None
        } else {
            let serial = toks[0];
            let (m, p, tid) = spec_kv_fold(toks.subrange(2, toks.len() as int), None, None, None);
            Some(
                SpecDevice {
                    serial: serial,
                    state: spec_device_state(toks[1]),
                    model: m,
                    product: p,
                    transport_id: tid,
                    connection_type: spec_connection_type(serial),
                },
            )
        }
    }
}

/// The devices of a listing, line by line, in order.
pub open spec fn spec_parse_device_lines(ls: Seq<Seq<u8>>) -> Seq<SpecDevice>
    decreases ls.len(),
{
    if ls.len() == 0 {
        Seq::empty()
    } else {
        match spec_parse_device_line(ls[0]) {
            Some(d) => seq![d] + spec_parse_device_lines(ls.drop_first()),
            None => spec_parse_device_lines(ls.drop_first()),
        }
    }
}

/// The devices the raw roster listing describes.
pub open spec fn spec_parse_device_list(s: Seq<u8>) -> Seq<SpecDevice> {
    spec_parse_device_lines(spec_lines(s))
}

fn parse_device_line(line: &Vec<u8>) -> (r: Option<Device>)
    ensures
        match r {
            Some(d) => spec_parse_device_line(line@) == Some(d@),
            None => spec_parse_device_line(line@) is None,
        },
{
    let t = trim(line.as_slice());
    if t.len() == 0 || starts_with(t.as_slice(), "List of".as_bytes()) {
        return None;
    }
    let toks = tokens(t.as_slice());
    if toks.len() < 2 {
        return None;
    }
    let ghost toks_v = spec_tokens(t@);
    let serial = copy_bytes(&toks[0]);
    let state = device_state_of_token(&toks[1]);
    let connection_type = if starts_with(serial.as_slice(), "emulator-".as_bytes()) {
        ConnectionType::Emulator
    } else if contains_byte(serial.as_slice(), 58) {
        ConnectionType::Tcp
    } else {
        ConnectionType::Usb
    };
    let mut model: Option<Vec<u8>> = None;
    let mut product: Option<Vec<u8>> = None;
    let mut transport_id: Option<Vec<u8>> = None;
    let mut k: usize = 2;
    while k < toks.len()
        invariant
            2 <= k <= toks@.len(),
            toks@.len() == toks_v.len(),
            forall|j: int| 0 <= j < toks@.len() ==> toks@[j]@ == toks_v[j],
            spec_kv_fold(toks_v.subrange(2, toks_v.len() as int), None, None, None)
                == spec_kv_fold(
                toks_v.subrange(k as int, toks_v.len() as int),
                model.deep_view(),
                product.deep_view(),
                transport_id.deep_view(),
            ),
        decreases toks@.len() - k,
    {
        let tok = &toks[k];
        let ghost pre = toks_v.subrange(k as int, toks_v.len() as int);
        let ghost m0 = model.deep_view();
        let ghost p0 = product.deep_view();
        let ghost t0 = transport_id.deep_view();
        proof {
            assert(pre[0] == toks_v[k as int]);
            assert(tok@ == pre[0]);
            assert(pre.drop_first() =~= toks_v.subrange(k + 1, toks_v.len() as int));
        }
        match crate::text::find_byte(tok.as_slice(), 58) {
            Some(i) => {
                proof {
                    crate::text::lemma_find_props(tok@, 58);
                }
                let key = subrange_vec(tok.as_slice(), 0, i);
                let value = subrange_vec(tok.as_slice(), i + 1, tok.len());
                proof {
                    assert(value.deep_view() =~= value@);
                }
                if bytes_eq(key.as_slice(), "model".as_bytes()) {
                    model = Some(value);
                } else if bytes_eq(key.as_slice(), "product".as_bytes()) {
                    product = Some(value);
                } else if bytes_eq(key.as_slice(), "transport_id".as_bytes()) {
                    transport_id = Some(value);
                }
                proof {
                    assert(spec_kv_fold(pre, m0, p0, t0) == spec_kv_fold(
                        pre.drop_first(),
                        model.deep_view(),
                        product.deep_view(),
                        transport_id.deep_view(),
                    ));
                }
            },
            None => {
                proof {
                    assert(spec_kv_fold(pre, m0, p0, t0) == spec_kv_fold(
                        pre.drop_first(),
                        model.deep_view(),
                        product.deep_view(),
                        transport_id.deep_view(),
                    ));
                }
            },
        }
        k = k + 1;
    }
    proof {
        assert(toks_v.subrange(toks_v.len() as int, toks_v.len() as int) =~= Seq::<Seq<u8>>::empty());
    }
    Some(
        Device {
            serial,
            state,
            model,
            product,
            transport_id,
            connection_type,
        },
    )
}

/// Parse the bridge's raw device enumeration: one device per well-formed
/// line, the banner and malformed lines skipped.
pub fn parse_device_list(output: &str) -> (r: Vec<Device>)
    ensures
        r.deep_view() == spec_parse_device_list(output.spec_bytes()),
{
    let bytes = output.as_bytes();
    let ls = lines(bytes);
    let ghost ls_v = spec_lines(bytes@);
    let mut r: Vec<Device> = Vec::new();
    proof {
        assert(ls_v.subrange(0, ls_v.len() as int) =~= ls_v);
        assert(r.deep_view() =~= Seq::<SpecDevice>::empty());
        assert(Seq::<SpecDevice>::empty() + spec_parse_device_lines(ls_v)
            =~= spec_parse_device_lines(ls_v));
    }
    let mut k: usize = 0;
    while k < ls.len()
        invariant
            k <= ls@.len(),
            ls@.len() == ls_v.len(),
            forall|j: int| 0 <= j < ls@.len() ==> ls@[j]@ == ls_v[j],
            spec_parse_device_lines(ls_v) == r.deep_view() + spec_parse_device_lines(
                ls_v.subrange(k as int, ls_v.len() as int),
            ),
        decreases ls@.len() - k,
    {
        let ghost pre = ls_v.subrange(k as int, ls_v.len() as int);
        let ghost r0 = r.deep_view();
        proof {
            assert(pre[0] == ls_v[k as int]);
            assert(ls@[k as int]@ == pre[0]);
            assert(pre.drop_first() =~= ls_v.subrange(k + 1, ls_v.len() as int));
        }
        match parse_device_line(&ls[k]) {
            Some(d) => {
                let ghost dv = d@;
                r.push(d);
                proof {
                    assert(r.deep_view() =~= r0 + seq![dv]);
                    assert(spec_parse_device_lines(pre) == seq![dv] + spec_parse_device_lines(
                        pre.drop_first(),
                    ));
                    assert(r0 + (seq![dv] + spec_parse_device_lines(pre.drop_first())) =~= (r0
                        + seq![dv]) + spec_parse_device_lines(pre.drop_first()));
                }
            },
            None => {
                proof {
                    assert(spec_parse_device_lines(pre) == spec_parse_device_lines(
                        pre.drop_first(),
                    ));
                }
            },
        }
        k = k + 1;
    }
    proof {
        assert(ls_v.subrange(ls_v.len() as int, ls_v.len() as int) =~= Seq::<Seq<u8>>::empty());
        assert(spec_parse_device_lines(Seq::<Seq<u8>>::empty()) =~= Seq::<SpecDevice>::empty());
        assert(r.deep_view() =~= spec_parse_device_lines(ls_v));
    }
    r
}

} // verus!
