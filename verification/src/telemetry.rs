//! Telemetry: structured diagnostic data about one selected device.
//!
//! Each parser takes the raw text of one bridge subcommand and yields either
//! a parsed value or absence — never a hard failure.  A malformed or empty
//! blob degrades to a missing field, and the assembly of the full record
//! falls back to an `N/A` placeholder per field.
//!
//! Sizes are kept in whole kilobytes; a gigabyte figure at one decimal place
//! is derived as tenths of a gigabyte (kilobytes times ten, divided by the
//! kilobytes per gigabyte), so the crate needs no floating point.

use vstd::prelude::*;
use vstd::string::StringSliceAdditionalSpecFns;

use crate::text::{
    all_digits, dec_value, find_sub, lines, parse_u64, prefix_until_either, spec_dec_digits,
    spec_find_sub, spec_lines, spec_parse_u64, spec_prefix_until_either,
    spec_strip_prefix, spec_strip_suffix, spec_trim, spec_trim_byte, strip_prefix, strip_suffix,
    subrange_vec, trim, trim_byte, u64_to_dec,
};

verus! {

/// Kilobytes in one binary gigabyte.
pub const KB_PER_GB: u64 = 1048576;

/// Battery charge and a human-readable status label.
#[derive(Debug, Clone, PartialEq, Eq)]
pub struct BatteryInfo {
    pub level: u8,
    pub status: Vec<u8>,
}

/// Spec-level image of a `BatteryInfo`.
pub struct SpecBatteryInfo {
    pub level: u8,
    pub status: Seq<u8>,
}

impl View for BatteryInfo {
    type V = SpecBatteryInfo;

    open spec fn view(&self) -> SpecBatteryInfo {
        SpecBatteryInfo { level: self.level, status: self.status@ }
    }
}

impl DeepView for BatteryInfo {
    type V = SpecBatteryInfo;

    open spec fn deep_view(&self) -> SpecBatteryInfo {
        self.view()
    }
}

/// Data-partition usage in kilobytes.
#[derive(Debug, Clone, Copy, PartialEq, Eq, Structural)]
pub struct StorageInfo {
    pub used_kb: u64,
    pub total_kb: u64,
}

/// Memory usage in kilobytes.
#[derive(Debug, Clone, Copy, PartialEq, Eq, Structural)]
pub struct RamInfo {
    pub used_kb: u64,
    pub total_kb: u64,
}

/// Screen resolution and pixel density, as display text.
#[derive(Debug, Clone, PartialEq, Eq)]
pub struct ScreenInfo {
    pub resolution: Vec<u8>,
    pub density: Vec<u8>,
}

/// Spec-level image of a `ScreenInfo`.
pub struct SpecScreenInfo {
    pub resolution: Seq<u8>,
    pub density: Seq<u8>,
}

impl View for ScreenInfo {
    type V = SpecScreenInfo;

    open spec fn view(&self) -> SpecScreenInfo {
        SpecScreenInfo { resolution: self.resolution@, density: self.density@ }
    }
}

impl DeepView for ScreenInfo {
    type V = SpecScreenInfo;

    open spec fn deep_view(&self) -> SpecScreenInfo {
        self.view()
    }
}

/// Wireless network name and address, each `N/A` when unavailable.
#[derive(Debug, Clone, PartialEq, Eq)]
pub struct WifiInfo {
    pub ssid: Vec<u8>,
    pub ip: Vec<u8>,
}

/// Spec-level image of a `WifiInfo`.
pub struct SpecWifiInfo {
    pub ssid: Seq<u8>,
    pub ip: Seq<u8>,
}

impl View for WifiInfo {
    type V = SpecWifiInfo;

    open spec fn view(&self) -> SpecWifiInfo {
        SpecWifiInfo { ssid: self.ssid@, ip: self.ip@ }
    }
}

impl DeepView for WifiInfo {
    type V = SpecWifiInfo;

    open spec fn deep_view(&self) -> SpecWifiInfo {
        self.view()
    }
}

/// The values a property dump yields; an empty field means the dump did not
/// supply it.
#[derive(Debug, Clone, PartialEq, Eq)]
pub struct GetpropResult {
    pub model: Vec<u8>,
    pub android_version: Vec<u8>,
    pub api_level: Vec<u8>,
    pub abi: Vec<u8>,
    pub locale: Vec<u8>,
}

/// Spec-level image of a `GetpropResult`.
pub struct SpecGetpropResult {
    pub model: Seq<u8>,
    pub android_version: Seq<u8>,
    pub api_level: Seq<u8>,
    pub abi: Seq<u8>,
    pub locale: Seq<u8>,
}

impl View for GetpropResult {
    type V = SpecGetpropResult;

    open spec fn view(&self) -> SpecGetpropResult {
        SpecGetpropResult {
            model: self.model@,
            android_version: self.android_version@,
            api_level: self.api_level@,
            abi: self.abi@,
            locale: self.locale@,
        }
    }
}

/// Tenths of a gigabyte that `kb` kilobytes amount to, rounded down: what a
/// gigabyte figure formatted at one decimal place shows.
pub open spec fn spec_gb_tenths_of_kb(kb: u64) -> u64 {
    ((kb as nat) * 10 / (KB_PER_GB as nat)) as u64
}

/// Convert kilobytes to tenths of a gigabyte.
pub fn gb_tenths_of_kb(kb: u64) -> (r: u64)
    ensures
        r == spec_gb_tenths_of_kb(kb),
{
    let wide: u128 = (kb as u128) * 10 / (KB_PER_GB as u128);
    proof {
        assert((kb as nat) * 10 / (KB_PER_GB as nat) <= kb as nat) by (nonlinear_arith);
    }
    wide as u64
}

/// The conversion from kilobytes to a one-decimal gigabyte figure is
/// monotonic: more kilobytes never show as fewer gigabyte tenths.
pub proof fn lemma_gb_tenths_monotonic(kb1: u64, kb2: u64)
    requires
        kb1 <= kb2,
    ensures
        spec_gb_tenths_of_kb(kb1) <= spec_gb_tenths_of_kb(kb2),
{
    assert((kb1 as nat) * 10 / (KB_PER_GB as nat) <= (kb2 as nat) * 10 / (KB_PER_GB as nat))
        by (nonlinear_arith)
        requires
            kb1 <= kb2,
    ;
}

/// The one-decimal rendering of a tenths figure: the whole part, a dot, and
/// one digit of tenths.
pub open spec fn spec_format_tenths(t: u64) -> Seq<u8> {
    spec_dec_digits((t / 10) as nat) + seq![46u8] + seq![(48 + t % 10) as u8]
}

/// Render tenths of a unit as a one-decimal-place figure.
pub fn format_tenths(t: u64) -> (r: Vec<u8>)
    ensures
        r@ == spec_format_tenths(t),
{
    let mut r = u64_to_dec(t / 10);
    r.push(46);
    r.push(48 + (t % 10) as u8);
    proof {
        assert(r@ =~= spec_format_tenths(t));
    }
    r
}

/// Append a copy of `src` to `dst`.
pub fn push_all(dst: &mut Vec<u8>, src: &[u8])
    ensures
        final(dst)@ == old(dst)@ + src@,
{
    let mut i: usize = 0;
    while i < src.len()
        invariant
            i <= src@.len(),
            dst@ == old(dst)@ + src@.subrange(0, i as int),
        decreases src@.len() - i,
    {
        dst.push(src[i]);
        i = i + 1;
        proof {
            assert(dst@ =~= old(dst)@ + src@.subrange(0, i as int));
        }
    }
    proof {
        assert(src@.subrange(0, src@.len() as int) =~= src@);
    }
}

/// What `str::parse::<u8>` returns on a digit string.
pub open spec fn spec_parse_u8(s: Seq<u8>) -> Option<u8> {
    if s.len() > 0 && all_digits(s) && dec_value(s) <= u8::MAX {
        Some(dec_value(s) as u8)
    } else {
        None
    }
}

/// Decimal parse of `s` into a `u8`.
pub fn parse_u8(s: &[u8]) -> (r: Option<u8>)
    ensures
        r == spec_parse_u8(s@),
{
    match parse_u64(s) {
        Some(v) => {
            if v <= 255 {
                Some(v as u8)
            } else {
                None
            }
        },
        None => {
            proof {
                if s@.len() > 0 && all_digits(s@) && dec_value(s@) <= u8::MAX {
                    assert(dec_value(s@) <= u64::MAX);
                }
            }
            None
        },
    }
}

/// What `str::parse::<u32>` returns on a digit string.
pub open spec fn spec_parse_u32(s: Seq<u8>) -> Option<u32> {
    if s.len() > 0 && all_digits(s) && dec_value(s) <= u32::MAX {
        Some(dec_value(s) as u32)
    } else {
        None
    }
}

/// Decimal parse of `s` into a `u32`.
pub fn parse_u32(s: &[u8]) -> (r: Option<u32>)
    ensures
        r == spec_parse_u32(s@),
{
    match parse_u64(s) {
        Some(v) => {
            if v <= 0xFFFF_FFFF {
                Some(v as u32)
            } else {
                None
            }
        },
        None => {
            proof {
                if s@.len() > 0 && all_digits(s@) && dec_value(s@) <= u32::MAX {
                    assert(dec_value(s@) <= u64::MAX);
                }
            }
            None
        },
    }
}

/// The plug-type word of a charging battery: AC, USB or Wireless by plug
/// code, USB for anything unrecognized.
pub open spec fn spec_plug_type(plugged: u32) -> Seq<u8> {
    if plugged == 1 {
        "AC".spec_bytes()
    } else if plugged == 2 {
        "USB".spec_bytes()
    } else if plugged == 4 {
        "Wireless".spec_bytes()
    } else {
        "USB".spec_bytes()
    }
}

/// The status label a battery dump's status and plug codes map to.
pub open spec fn spec_battery_status_label(status: u32, plugged: u32) -> Seq<u8> {
    if status == 2 {
        "charging (".spec_bytes() + spec_plug_type(plugged) + ")".spec_bytes()
    } else if status == 3 {
        "discharging".spec_bytes()
    } else if status == 5 {
        "full".spec_bytes()
    } else if status == 4 {
        "not charging".spec_bytes()
    } else {
        "unknown".spec_bytes()
    }
}

/// Render the battery status label for a status code and a plug code.
pub fn battery_status_label(status: u32, plugged: u32) -> (r: Vec<u8>)
    ensures
        r@ == spec_battery_status_label(status, plugged),
{
    if status == 2 {
        let mut r: Vec<u8> = Vec::new();
        push_all(&mut r, "charging (".as_bytes());
        if plugged == 1 {
            push_all(&mut r, "AC".as_bytes());
        } else if plugged == 2 {
            push_all(&mut r, "USB".as_bytes());
        } else if plugged == 4 {
            push_all(&mut r, "Wireless".as_bytes());
        } else {
            push_all(&mut r, "USB".as_bytes());
        }
        push_all(&mut r, ")".as_bytes());
        proof {
            assert(Seq::<u8>::empty() + "charging (".spec_bytes() =~= "charging (".spec_bytes());
        }
        r
    } else if status == 3 {
        let mut r: Vec<u8> = Vec::new();
        push_all(&mut r, "discharging".as_bytes());
        proof {
            assert(r@ =~= "discharging".spec_bytes());
        }
        r
    } else if status == 5 {
        let mut r: Vec<u8> = Vec::new();
        push_all(&mut r, "full".as_bytes());
        proof {
            assert(r@ =~= "full".spec_bytes());
        }
        r
    } else if status == 4 {
        let mut r: Vec<u8> = Vec::new();
        push_all(&mut r, "not charging".as_bytes());
        proof {
            assert(r@ =~= "not charging".spec_bytes());
        }
        r
    } else {
        let mut r: Vec<u8> = Vec::new();
        push_all(&mut r, "unknown".as_bytes());
        proof {
            assert(r@ =~= "unknown".spec_bytes());
        }
        r
    }
}

/// One battery-dump line folded into the scan state: the last `level:`,
/// `status:` and `plugged:` lines win, and a malformed number clears the
/// field it belongs to, so a bad late line hides an earlier good one.
pub open spec fn spec_battery_step(
    acc: (Option<u8>, Option<u32>, Option<u32>),
    line: Seq<u8>,
) -> (Option<u8>, Option<u32>, Option<u32>) {
    let t = spec_trim(line);
    match spec_strip_prefix(t, "level:".spec_bytes()) {
        Some(rest) => (spec_parse_u8(spec_trim(rest)), acc.1, acc.2),
        None => match spec_strip_prefix(t, "status:".spec_bytes()) {
            Some(rest) => (acc.0, spec_parse_u32(spec_trim(rest)), acc.2),
            None => match spec_strip_prefix(t, "plugged:".spec_bytes()) {
                Some(rest) => (acc.0, acc.1, spec_parse_u32(spec_trim(rest))),
                None => acc,
            },
        },
    }
}

/// The battery scan over all lines, first to last.
pub open spec fn spec_battery_scan(
    ls: Seq<Seq<u8>>,
    acc: (Option<u8>, Option<u32>, Option<u32>),
) -> (Option<u8>, Option<u32>, Option<u32>)
    decreases ls.len(),
{
    if ls.len() == 0 {
        acc
    } else {
        spec_battery_scan(ls.drop_first(), spec_battery_step(acc, ls[0]))
    }
}

/// A code that stayed absent counts as zero.
pub open spec fn spec_code_or_zero(c: Option<u32>) -> u32 {
    match c {
        Some(v) => v,
        None => 0,
    }
}

/// What the battery parser yields: the level and the derived status label,
/// or nothing when no well-formed `level:` line was seen.
pub open spec fn spec_parse_battery(s: Seq<u8>) -> Option<SpecBatteryInfo> {
    let (level, status, plugged) = spec_battery_scan(spec_lines(s), (None, None, None));
    match level {
        Some(lv) => Some(
            SpecBatteryInfo {
                level: lv,
                status: spec_battery_status_label(
                    spec_code_or_zero(status),
                    spec_code_or_zero(plugged),
                ),
            },
        ),
        None => None,
    }
}

/// Parse a battery dump: requires a `level:` line; derives the status label
/// from the `status:` and `plugged:` codes, zero when absent.
pub fn parse_battery(output: &str) -> (r: Option<BatteryInfo>)
    ensures
        r.deep_view() == spec_parse_battery(output.spec_bytes()),
{
    let bytes = output.as_bytes();
    let ls = lines(bytes);
    let ghost ls_v = spec_lines(bytes@);
    let mut level: Option<u8> = None;
    let mut status: Option<u32> = None;
    let mut plugged: Option<u32> = None;
    proof {
        assert(ls_v.subrange(0, ls_v.len() as int) =~= ls_v);
    }
    let mut k: usize = 0;
    while k < ls.len()
        invariant
            k <= ls@.len(),
            ls@.len() == ls_v.len(),
            forall|j: int| 0 <= j < ls@.len() ==> ls@[j]@ == ls_v[j],
            spec_battery_scan(ls_v, (None, None, None)) == spec_battery_scan(
                ls_v.subrange(k as int, ls_v.len() as int),
                (level, status, plugged),
            ),
        decreases ls@.len() - k,
    {
        let ghost pre = ls_v.subrange(k as int, ls_v.len() as int);
        let ghost acc0 = (level, status, plugged);
        proof {
            assert(pre[0] == ls_v[k as int]);
            assert(ls@[k as int]@ == pre[0]);
            assert(pre.drop_first() =~= ls_v.subrange(k + 1, ls_v.len() as int));
        }
        let t = trim(ls[k].as_slice());
        match strip_prefix(t.as_slice(), "level:".as_bytes()) {
            Some(rest) => {
                let v = trim(rest.as_slice());
                level = parse_u8(v.as_slice());
            },
            None => {
                match strip_prefix(t.as_slice(), "status:".as_bytes()) {
                    Some(rest) => {
                        let v = trim(rest.as_slice());
                        status = parse_u32(v.as_slice());
                    },
                    None => {
                        match strip_prefix(t.as_slice(), "plugged:".as_bytes()) {
                            Some(rest) => {
                                let v = trim(rest.as_slice());
                                plugged = parse_u32(v.as_slice());
                            },
                            None => {},
                        }
                    },
                }
            },
        }
        proof {
            assert((level, status, plugged) == spec_battery_step(acc0, pre[0]));
            assert(spec_battery_scan(pre, acc0) == spec_battery_scan(
                pre.drop_first(),
                spec_battery_step(acc0, pre[0]),
            ));
        }
        k = k + 1;
    }
    proof {
        assert(ls_v.subrange(ls_v.len() as int, ls_v.len() as int) =~= Seq::<Seq<u8>>::empty());
    }
    match level {
        Some(lv) => {
            let code = match status {
                Some(c) => c,
                None => 0,
            };
            let plug = match plugged {
                Some(c) => c,
                None => 0,
            };
            let label = battery_status_label(code, plug);
            Some(BatteryInfo { level: lv, status: label })
        },
        None => None,
    }
}

/// The key and value of one `[key]: [value]` property line, or nothing when
/// the line is not of that shape.
pub open spec fn spec_prop_line(line: Seq<u8>) -> Option<(Seq<u8>, Seq<u8>)> {
    match spec_strip_prefix(line, "[".spec_bytes()) {
        None => None,
        Some(rest) => match spec_find_sub(rest, "]:".spec_bytes()) {
            None => None,
            Some(i) => {
                let key = rest.subrange(0, i);
                let after = spec_trim(
                    rest.subrange(i + "]:".spec_bytes().len(), rest.len() as int),
                );
                match spec_strip_prefix(after, "[".spec_bytes()) {
                    None => None,
                    Some(v1) => match spec_strip_suffix(v1, "]".spec_bytes()) {
                        None => None,
                        Some(v) => Some((key, v)),
                    },
                }
            },
        },
    }
}

/// Split one `[key]: [value]` property line into its key and value.
pub fn parse_prop_line(line: &[u8]) -> (r: Option<(Vec<u8>, Vec<u8>)>)
    ensures
        match r {
            Some(kv) => spec_prop_line(line@) == Some((kv.0@, kv.1@)),
            None => spec_prop_line(line@) is None,
        },
{
    let rest = match strip_prefix(line, "[".as_bytes()) {
        Some(rest) => rest,
        None => {
            return None;
        },
    };
    let pat = "]:".as_bytes();
    let i = match find_sub(rest.as_slice(), pat) {
        Some(i) => i,
        None => {
            return None;
        },
    };
    let n = rest.len();
    proof {
        crate::text::lemma_find_sub_props(rest@, "]:".spec_bytes());
        assert(crate::text::spec_match_at(rest@, pat@, i as int));
        assert(i + pat@.len() <= n);
    }
    let key = subrange_vec(rest.as_slice(), 0, i);
    let tail = subrange_vec(rest.as_slice(), i + pat.len(), n);
    let after = trim(tail.as_slice());
    let v1 = match strip_prefix(after.as_slice(), "[".as_bytes()) {
        Some(v1) => v1,
        None => {
            return None;
        },
    };
    match strip_suffix(v1.as_slice(), "]".as_bytes()) {
        Some(v) => Some((key, v)),
        None => None,
    }
}

/// One property line folded into the result: for each field the first
/// non-empty value wins; both locale keys feed the one locale field.
pub open spec fn spec_getprop_step(acc: SpecGetpropResult, line: Seq<u8>) -> SpecGetpropResult {
    match spec_prop_line(spec_trim(line)) {
        None => acc,
        Some(kv) => {
            let k = kv.0;
            let v = kv.1;
            if v.len() == 0 {
                acc
            } else if k == "ro.build.version.release".spec_bytes() && acc.android_version.len()
                == 0 {
                SpecGetpropResult { android_version: v, ..acc }
            } else if k == "ro.build.version.sdk".spec_bytes() && acc.api_level.len() == 0 {
                SpecGetpropResult { api_level: v, ..acc }
            } else if k == "ro.product.cpu.abi".spec_bytes() && acc.abi.len() == 0 {
                SpecGetpropResult { abi: v, ..acc }
            } else if k == "persist.sys.locale".spec_bytes() && acc.locale.len() == 0 {
                SpecGetpropResult { locale: v, ..acc }
            } else if k == "ro.product.locale".spec_bytes() && acc.locale.len() == 0 {
                SpecGetpropResult { locale: v, ..acc }
            } else if k == "ro.product.model".spec_bytes() && acc.model.len() == 0 {
                SpecGetpropResult { model: v, ..acc }
            } else {
                acc
            }
        },
    }
}

/// The property scan over all lines, first to last.
pub open spec fn spec_getprop_scan(ls: Seq<Seq<u8>>, acc: SpecGetpropResult) -> SpecGetpropResult
    decreases ls.len(),
{
    if ls.len() == 0 {
        acc
    } else {
        spec_getprop_scan(ls.drop_first(), spec_getprop_step(acc, ls[0]))
    }
}

/// An empty scan result: no field supplied yet.
pub open spec fn spec_getprop_empty() -> SpecGetpropResult {
    SpecGetpropResult {
        model: Seq::empty(),
        android_version: Seq::empty(),
        api_level: Seq::empty(),
        abi: Seq::empty(),
        locale: Seq::empty(),
    }
}

/// What the property parser yields on a raw dump.
pub open spec fn spec_parse_getprop(s: Seq<u8>) -> SpecGetpropResult {
    spec_getprop_scan(spec_lines(s), spec_getprop_empty())
}

/// Parse a property dump: lines of the shape `[key]: [value]`; unknown keys
/// are ignored, and per field the first non-empty value wins.
pub fn parse_getprop(output: &str) -> (r: GetpropResult)
    ensures
        r@ == spec_parse_getprop(output.spec_bytes()),
{
    let bytes = output.as_bytes();
    let ls = lines(bytes);
    let ghost ls_v = spec_lines(bytes@);
    let mut acc = GetpropResult {
        model: Vec::new(),
        android_version: Vec::new(),
        api_level: Vec::new(),
        abi: Vec::new(),
        locale: Vec::new(),
    };
    proof {
        assert(ls_v.subrange(0, ls_v.len() as int) =~= ls_v);
        assert(acc@ =~= spec_getprop_empty());
    }
    let mut k: usize = 0;
    while k < ls.len()
        invariant
            k <= ls@.len(),
            ls@.len() == ls_v.len(),
            forall|j: int| 0 <= j < ls@.len() ==> ls@[j]@ == ls_v[j],
            spec_getprop_scan(ls_v, spec_getprop_empty()) == spec_getprop_scan(
                ls_v.subrange(k as int, ls_v.len() as int),
                acc@,
            ),
        decreases ls@.len() - k,
    {
        let ghost pre = ls_v.subrange(k as int, ls_v.len() as int);
        let ghost acc0 = acc@;
        proof {
            assert(pre[0] == ls_v[k as int]);
            assert(ls@[k as int]@ == pre[0]);
            assert(pre.drop_first() =~= ls_v.subrange(k + 1, ls_v.len() as int));
        }
        let t = trim(ls[k].as_slice());
        match parse_prop_line(t.as_slice()) {
            Some(kv) => {
                let (key, value) = kv;
                if value.len() > 0 {
                    if crate::text::bytes_eq(key.as_slice(), "ro.build.version.release".as_bytes())
                        && acc.android_version.len() == 0 {
                        acc.android_version = value;
                    } else if crate::text::bytes_eq(
                        key.as_slice(),
                        "ro.build.version.sdk".as_bytes(),
                    ) && acc.api_level.len() == 0 {
                        acc.api_level = value;
                    } else if crate::text::bytes_eq(key.as_slice(), "ro.product.cpu.abi".as_bytes())
                        && acc.abi.len() == 0 {
                        acc.abi = value;
                    } else if crate::text::bytes_eq(key.as_slice(), "persist.sys.locale".as_bytes())
                        && acc.locale.len() == 0 {
                        acc.locale = value;
                    } else if crate::text::bytes_eq(key.as_slice(), "ro.product.locale".as_bytes())
                        && acc.locale.len() == 0 {
                        acc.locale = value;
                    } else if crate::text::bytes_eq(key.as_slice(), "ro.product.model".as_bytes())
                        && acc.model.len() == 0 {
                        acc.model = value;
                    }
                }
                proof {
                    assert(acc@ == spec_getprop_step(acc0, pre[0]));
                }
            },
            None => {
                proof {
                    assert(acc@ == spec_getprop_step(acc0, pre[0]));
                }
            },
        }
        proof {
            assert(spec_getprop_scan(pre, acc0) == spec_getprop_scan(pre.drop_first(), acc@));
        }
        k = k + 1;
    }
    proof {
        assert(ls_v.subrange(ls_v.len() as int, ls_v.len() as int) =~= Seq::<Seq<u8>>::empty());
    }
    acc
}

/// The storage scan: the first line with at least four columns decides; its
/// second column is total kilobytes and its third used kilobytes, and a
/// malformed number makes the whole result absent.
pub open spec fn spec_storage_scan(ls: Seq<Seq<u8>>) -> Option<StorageInfo>
    decreases ls.len(),
{
    if ls.len() == 0 {
        None
    } else {
        let toks = crate::text::spec_tokens(ls[0]);
        if toks.len() >= 4 {
            match spec_parse_u64(toks[1]) {
                Some(total) => match spec_parse_u64(toks[2]) {
                    Some(used) => Some(StorageInfo { used_kb: used, total_kb: total }),
                    None => None,
                },
                None => None,
            }
        } else {
            spec_storage_scan(ls.drop_first())
        }
    }
}

/// What the storage parser yields: the header line is skipped, then the
/// first line with at least four columns is read.
pub open spec fn spec_parse_storage(s: Seq<u8>) -> Option<StorageInfo> {
    let ls = spec_lines(s);
    if ls.len() == 0 {
        None
    } else {
        spec_storage_scan(ls.drop_first())
    }
}

/// Parse a filesystem usage report into kilobyte figures.
pub fn parse_storage(output: &str) -> (r: Option<StorageInfo>)
    ensures
        r == spec_parse_storage(output.spec_bytes()),
{
    let bytes = output.as_bytes();
    let ls = lines(bytes);
    let ghost ls_v = spec_lines(bytes@);
    if ls.len() == 0 {
        return None;
    }
    let mut k: usize = 1;
    proof {
        assert(ls_v.subrange(1, ls_v.len() as int) =~= ls_v.drop_first());
    }
    while k < ls.len()
        invariant
            1 <= k <= ls@.len(),
            ls_v == spec_lines(output.spec_bytes()),
            ls_v.len() > 0,
            ls@.len() == ls_v.len(),
            forall|j: int| 0 <= j < ls@.len() ==> ls@[j]@ == ls_v[j],
            spec_storage_scan(ls_v.drop_first()) == spec_storage_scan(
                ls_v.subrange(k as int, ls_v.len() as int),
            ),
        decreases ls@.len() - k,
    {
        let ghost pre = ls_v.subrange(k as int, ls_v.len() as int);
        proof {
            assert(pre[0] == ls_v[k as int]);
            assert(ls@[k as int]@ == pre[0]);
            assert(pre.drop_first() =~= ls_v.subrange(k + 1, ls_v.len() as int));
        }
        let toks = crate::text::tokens(ls[k].as_slice());
        proof {
            assert(toks@.len() == crate::text::spec_tokens(pre[0]).len());
            assert(toks@.len() >= 2 ==> toks@[1]@ == crate::text::spec_tokens(pre[0])[1]);
            assert(toks@.len() >= 3 ==> toks@[2]@ == crate::text::spec_tokens(pre[0])[2]);
        }
        if toks.len() >= 4 {
            let total = parse_u64(toks[1].as_slice());
            let used = parse_u64(toks[2].as_slice());
            match total {
                Some(t) => match used {
                    Some(u) => {
                        return Some(StorageInfo { used_kb: u, total_kb: t });
                    },
                    None => {
                        return None;
                    },
                },
                None => {
                    return None;
                },
            }
        }
        k = k + 1;
    }
    proof {
        assert(ls_v.subrange(ls_v.len() as int, ls_v.len() as int) =~= Seq::<Seq<u8>>::empty());
    }
    None
}

/// One memory-report line folded into the scan state: `MemTotal:` and
/// `MemAvailable:` lines set their figure, the value read after stripping
/// every ` kB` suffix; the last line of a kind wins, and a malformed one
/// clears the figure, so a bad late line hides an earlier good one.
pub open spec fn spec_ram_step(
    acc: (Option<u64>, Option<u64>),
    line: Seq<u8>,
) -> (Option<u64>, Option<u64>) {
    match spec_strip_prefix(line, "MemTotal:".spec_bytes()) {
        Some(rest) => (
            spec_parse_u64(
                spec_trim(crate::text::spec_strip_suffix_all(spec_trim(rest), " kB".spec_bytes())),
            ),
            acc.1,
        ),
        None => match spec_strip_prefix(line, "MemAvailable:".spec_bytes()) {
            Some(rest) => (
                acc.0,
                spec_parse_u64(
                    spec_trim(
                        crate::text::spec_strip_suffix_all(spec_trim(rest), " kB".spec_bytes()),
                    ),
                ),
            ),
            None => acc,
        },
    }
}

/// The memory scan over all lines, first to last.
pub open spec fn spec_ram_scan(
    ls: Seq<Seq<u8>>,
    acc: (Option<u64>, Option<u64>),
) -> (Option<u64>, Option<u64>)
    decreases ls.len(),
{
    if ls.len() == 0 {
        acc
    } else {
        spec_ram_scan(ls.drop_first(), spec_ram_step(acc, ls[0]))
    }
}

/// What the memory parser yields: both the total and the available figure
/// are required; used is total minus available, floored at zero.
pub open spec fn spec_parse_ram(s: Seq<u8>) -> Option<RamInfo> {
    let scanned = spec_ram_scan(spec_lines(s), (None, None));
    match scanned.0 {
        Some(total) => match scanned.1 {
            Some(avail) => Some(
                RamInfo {
                    total_kb: total,
                    used_kb: if avail <= total {
                        (total - avail) as u64
                    } else {
                        0
                    },
                },
            ),
            None => None,
        },
        None => None,
    }
}

/// Parse a memory report into kilobyte figures.
pub fn parse_ram(output: &str) -> (r: Option<RamInfo>)
    ensures
        r == spec_parse_ram(output.spec_bytes()),
{
    let bytes = output.as_bytes();
    let ls = lines(bytes);
    let ghost ls_v = spec_lines(bytes@);
    let mut total: Option<u64> = None;
    let mut avail: Option<u64> = None;
    proof {
        assert(ls_v.subrange(0, ls_v.len() as int) =~= ls_v);
    }
    let mut k: usize = 0;
    while k < ls.len()
        invariant
            k <= ls@.len(),
            ls@.len() == ls_v.len(),
            forall|j: int| 0 <= j < ls@.len() ==> ls@[j]@ == ls_v[j],
            spec_ram_scan(ls_v, (None, None)) == spec_ram_scan(
                ls_v.subrange(k as int, ls_v.len() as int),
                (total, avail),
            ),
        decreases ls@.len() - k,
    {
        let ghost pre = ls_v.subrange(k as int, ls_v.len() as int);
        let ghost acc0 = (total, avail);
        proof {
            assert(pre[0] == ls_v[k as int]);
            assert(ls@[k as int]@ == pre[0]);
            assert(pre.drop_first() =~= ls_v.subrange(k + 1, ls_v.len() as int));
        }
        match strip_prefix(ls[k].as_slice(), "MemTotal:".as_bytes()) {
            Some(rest) => {
                let t1 = trim(rest.as_slice());
                let t2 = crate::text::strip_suffix_all(t1.as_slice(), " kB".as_bytes());
                let t3 = trim(t2.as_slice());
                total = parse_u64(t3.as_slice());
            },
            None => {
                match strip_prefix(ls[k].as_slice(), "MemAvailable:".as_bytes()) {
                    Some(rest) => {
                        let t1 = trim(rest.as_slice());
                        let t2 = crate::text::strip_suffix_all(t1.as_slice(), " kB".as_bytes());
                        let t3 = trim(t2.as_slice());
                        avail = parse_u64(t3.as_slice());
                    },
                    None => {},
                }
            },
        }
        proof {
            assert((total, avail) == spec_ram_step(acc0, pre[0]));
            assert(spec_ram_scan(pre, acc0) == spec_ram_scan(
                pre.drop_first(),
                spec_ram_step(acc0, pre[0]),
            ));
        }
        k = k + 1;
    }
    proof {
        assert(ls_v.subrange(ls_v.len() as int, ls_v.len() as int) =~= Seq::<Seq<u8>>::empty());
    }
    match total {
        Some(t) => {
            match avail {
                Some(a) => {
                    let used = if a <= t {
                        t - a
                    } else {
                        0
                    };
                    Some(RamInfo { total_kb: t, used_kb: used })
                },
                None => None,
            }
        },
        None => None,
    }
}

/// What one byte of a resolution becomes in display text: the letter `x`
/// becomes a multiplication sign (UTF-8 bytes 195, 151), everything else
/// stays.
pub open spec fn spec_times_of_byte(b: u8) -> Seq<u8> {
    if b == 120 {
        seq![195u8, 151u8]
    } else {
        seq![b]
    }
}

/// Every `x` replaced by a multiplication sign.
pub open spec fn spec_x_to_times(s: Seq<u8>) -> Seq<u8>
    decreases s.len(),
{
    if s.len() == 0 {
        Seq::empty()
    } else {
        spec_times_of_byte(s[0]) + spec_x_to_times(s.drop_first())
    }
}

proof fn lemma_x_to_times_snoc(s: Seq<u8>, c: u8)
    ensures
        spec_x_to_times(s.push(c)) == spec_x_to_times(s) + spec_times_of_byte(c),
    decreases s.len(),
{
    if s.len() == 0 {
        assert(s.push(c)[0] == c);
        assert(s.push(c).drop_first() =~= Seq::<u8>::empty());
        assert(spec_x_to_times(s) =~= Seq::<u8>::empty());
        assert(spec_x_to_times(Seq::<u8>::empty()) =~= Seq::<u8>::empty());
        assert(spec_x_to_times(s.push(c)) == spec_times_of_byte(s.push(c)[0]) + spec_x_to_times(
            s.push(c).drop_first(),
        ));
        assert(spec_x_to_times(s.push(c)) =~= spec_x_to_times(s) + spec_times_of_byte(c));
    } else {
        assert(s.push(c)[0] == s[0]);
        assert(s.push(c).drop_first() =~= s.drop_first().push(c));
        lemma_x_to_times_snoc(s.drop_first(), c);
        assert(spec_times_of_byte(s[0]) + (spec_x_to_times(s.drop_first()) + spec_times_of_byte(c))
            =~= (spec_times_of_byte(s[0]) + spec_x_to_times(s.drop_first()))
            + spec_times_of_byte(c));
    }
}

/// Copy of `s` with every `x` replaced by a multiplication sign.
pub fn x_to_times(s: &[u8]) -> (r: Vec<u8>)
    ensures
        r@ == spec_x_to_times(s@),
{
    let mut r: Vec<u8> = Vec::new();
    proof {
        assert(s@.subrange(0, 0) =~= Seq::<u8>::empty());
        assert(r@ =~= spec_x_to_times(s@.subrange(0, 0)));
    }
    let mut i: usize = 0;
    while i < s.len()
        invariant
            i <= s@.len(),
            r@ == spec_x_to_times(s@.subrange(0, i as int)),
        decreases s@.len() - i,
    {
        let b = s[i];
        if b == 120 {
            r.push(195);
            r.push(151);
        } else {
            r.push(b);
        }
        proof {
            lemma_x_to_times_snoc(s@.subrange(0, i as int), s@[i as int]);
            assert(s@.subrange(0, i + 1) =~= s@.subrange(0, i as int).push(s@[i as int]));
            assert(r@ =~= spec_x_to_times(s@.subrange(0, i as int)) + spec_times_of_byte(
                s@[i as int],
            ));
        }
        i = i + 1;
    }
    proof {
        assert(s@.subrange(0, s@.len() as int) =~= s@);
    }
    r
}

/// The screen-size scan: the first `Physical size:` line decides; its value
/// is trimmed and its `x` becomes a multiplication sign.
pub open spec fn spec_screen_size_scan(ls: Seq<Seq<u8>>) -> Option<Seq<u8>>
    decreases ls.len(),
{
    if ls.len() == 0 {
        None
    } else {
        match spec_strip_prefix(ls[0], "Physical size:".spec_bytes()) {
            Some(rest) => Some(spec_x_to_times(spec_trim(rest))),
            None => spec_screen_size_scan(ls.drop_first()),
        }
    }
}

/// What the screen-size parser yields on a raw report.
pub open spec fn spec_parse_screen_size(s: Seq<u8>) -> Option<Seq<u8>> {
    spec_screen_size_scan(spec_lines(s))
}

/// Parse a screen-size report into display text such as `1080×2400`.
pub fn parse_screen_size(output: &str) -> (r: Option<Vec<u8>>)
    ensures
        r.deep_view() == spec_parse_screen_size(output.spec_bytes()),
{
    let bytes = output.as_bytes();
    let ls = lines(bytes);
    let ghost ls_v = spec_lines(bytes@);
    proof {
        assert(ls_v.subrange(0, ls_v.len() as int) =~= ls_v);
    }
    let mut k: usize = 0;
    while k < ls.len()
        invariant
            k <= ls@.len(),
            ls_v == spec_lines(output.spec_bytes()),
            ls@.len() == ls_v.len(),
            forall|j: int| 0 <= j < ls@.len() ==> ls@[j]@ == ls_v[j],
            spec_screen_size_scan(ls_v) == spec_screen_size_scan(
                ls_v.subrange(k as int, ls_v.len() as int),
            ),
        decreases ls@.len() - k,
    {
        let ghost pre = ls_v.subrange(k as int, ls_v.len() as int);
        proof {
            assert(pre[0] == ls_v[k as int]);
            assert(ls@[k as int]@ == pre[0]);
            assert(pre.drop_first() =~= ls_v.subrange(k + 1, ls_v.len() as int));
        }
        match strip_prefix(ls[k].as_slice(), "Physical size:".as_bytes()) {
            Some(rest) => {
                let t = trim(rest.as_slice());
                let v = x_to_times(t.as_slice());
                proof {
                    assert(v.deep_view() =~= v@);
                }
                return Some(v);
            },
            None => {},
        }
        k = k + 1;
    }
    proof {
        assert(ls_v.subrange(ls_v.len() as int, ls_v.len() as int) =~= Seq::<Seq<u8>>::empty());
    }
    None
}

/// The density scan: the first `Physical density:` line decides; its value
/// is trimmed and `dpi` appended.
pub open spec fn spec_screen_density_scan(ls: Seq<Seq<u8>>) -> Option<Seq<u8>>
    decreases ls.len(),
{
    if ls.len() == 0 {
        None
    } else {
        match spec_strip_prefix(ls[0], "Physical density:".spec_bytes()) {
            Some(rest) => Some(spec_trim(rest) + "dpi".spec_bytes()),
            None => spec_screen_density_scan(ls.drop_first()),
        }
    }
}

/// What the density parser yields on a raw report.
pub open spec fn spec_parse_screen_density(s: Seq<u8>) -> Option<Seq<u8>> {
    spec_screen_density_scan(spec_lines(s))
}

/// Parse a screen-density report into display text such as `420dpi`.
pub fn parse_screen_density(output: &str) -> (r: Option<Vec<u8>>)
    ensures
        r.deep_view() == spec_parse_screen_density(output.spec_bytes()),
{
    let bytes = output.as_bytes();
    let ls = lines(bytes);
    let ghost ls_v = spec_lines(bytes@);
    proof {
        assert(ls_v.subrange(0, ls_v.len() as int) =~= ls_v);
    }
    let mut k: usize = 0;
    while k < ls.len()
        invariant
            k <= ls@.len(),
            ls_v == spec_lines(output.spec_bytes()),
            ls@.len() == ls_v.len(),
            forall|j: int| 0 <= j < ls@.len() ==> ls@[j]@ == ls_v[j],
            spec_screen_density_scan(ls_v) == spec_screen_density_scan(
                ls_v.subrange(k as int, ls_v.len() as int),
            ),
        decreases ls@.len() - k,
    {
        let ghost pre = ls_v.subrange(k as int, ls_v.len() as int);
        proof {
            assert(pre[0] == ls_v[k as int]);
            assert(ls@[k as int]@ == pre[0]);
            assert(pre.drop_first() =~= ls_v.subrange(k + 1, ls_v.len() as int));
        }
        match strip_prefix(ls[k].as_slice(), "Physical density:".as_bytes()) {
            Some(rest) => {
                let mut v = trim(rest.as_slice());
                push_all(&mut v, "dpi".as_bytes());
                proof {
                    assert(v.deep_view() =~= v@);
                }
                return Some(v);
            },
            None => {},
        }
        k = k + 1;
    }
    proof {
        assert(ls_v.subrange(ls_v.len() as int, ls_v.len() as int) =~= Seq::<Seq<u8>>::empty());
    }
    None
}

/// One diagnostic line folded into the wireless scan.  Lines are read only
/// while no network name has been found yet; a `mWifiInfo` line may supply
/// the name (first quoted token after `SSID: ` up to a comma, unless it is
/// the unknown-name sentinel) and the address (token after `IP: ` up to a
/// comma or slash, unless it is the zero address).
pub open spec fn spec_wifi_step(
    acc: (Option<Seq<u8>>, Option<Seq<u8>>),
    line: Seq<u8>,
) -> (Option<Seq<u8>>, Option<Seq<u8>>) {
    if acc.0 is Some {
        acc
    } else {
        match spec_strip_prefix(spec_trim(line), "mWifiInfo".spec_bytes()) {
            None => acc,
            Some(val) => {
                let ssid1 = match spec_find_sub(val, "SSID: ".spec_bytes()) {
                    Some(i) => {
                        let rest = val.subrange(
                            i + "SSID: ".spec_bytes().len(),
                            val.len() as int,
                        );
                        let sv = spec_trim_byte(
                            spec_trim(spec_prefix_until_either(rest, 44, 44)),
                            34,
                        );
                        if sv.len() > 0 && sv != "<unknown ssid>".spec_bytes() {
                            Some(sv)
                        } else {
                            acc.0
                        }
                    },
                    None => acc.0,
                };
                let ip1 = match spec_find_sub(val, "IP: ".spec_bytes()) {
                    Some(i) => {
                        let rest = val.subrange(i + "IP: ".spec_bytes().len(), val.len() as int);
                        let iv = spec_trim(spec_prefix_until_either(rest, 44, 47));
                        if iv.len() > 0 && iv != "0.0.0.0".spec_bytes() {
                            Some(iv)
                        } else {
                            acc.1
                        }
                    },
                    None => acc.1,
                };
                (ssid1, ip1)
            },
        }
    }
}

/// The wireless scan over all lines, first to last.
pub open spec fn spec_wifi_scan(
    ls: Seq<Seq<u8>>,
    acc: (Option<Seq<u8>>, Option<Seq<u8>>),
) -> (Option<Seq<u8>>, Option<Seq<u8>>)
    decreases ls.len(),
{
    if ls.len() == 0 {
        acc
    } else {
        spec_wifi_scan(ls.drop_first(), spec_wifi_step(acc, ls[0]))
    }
}

/// A field that stayed absent reads `N/A`.
pub open spec fn spec_or_na(v: Option<Seq<u8>>) -> Seq<u8> {
    match v {
        Some(s) => s,
        None => "N/A".spec_bytes(),
    }
}

/// What the wireless parser yields: always a record, each missing field
/// `N/A`.
pub open spec fn spec_parse_wifi(s: Seq<u8>) -> SpecWifiInfo {
    let scanned = spec_wifi_scan(spec_lines(s), (None, None));
    SpecWifiInfo { ssid: spec_or_na(scanned.0), ip: spec_or_na(scanned.1) }
}

fn wifi_extract(
    val: &Vec<u8>,
    ssid0: Option<Vec<u8>>,
    ip0: Option<Vec<u8>>,
) -> (r: (Option<Vec<u8>>, Option<Vec<u8>>))
    ensures
        ({
            let s = match spec_find_sub(val@, "SSID: ".spec_bytes()) {
                Some(i) => {
                    let rest = val@.subrange(i + "SSID: ".spec_bytes().len(), val@.len() as int);
                    let sv = spec_trim_byte(spec_trim(spec_prefix_until_either(rest, 44, 44)), 34);
                    if sv.len() > 0 && sv != "<unknown ssid>".spec_bytes() {
                        Some(sv)
                    } else {
                        ssid0.deep_view()
                    }
                },
                None => ssid0.deep_view(),
            };
            let p = match spec_find_sub(val@, "IP: ".spec_bytes()) {
                Some(i) => {
                    let rest = val@.subrange(i + "IP: ".spec_bytes().len(), val@.len() as int);
                    let iv = spec_trim(spec_prefix_until_either(rest, 44, 47));
                    if iv.len() > 0 && iv != "0.0.0.0".spec_bytes() {
                        Some(iv)
                    } else {
                        ip0.deep_view()
                    }
                },
                None => ip0.deep_view(),
            };
            r.0.deep_view() == s && r.1.deep_view() == p
        }),
{
    let ssid_pat = "SSID: ".as_bytes();
    let n = val.len();
    let ssid = match find_sub(val.as_slice(), ssid_pat) {
        Some(i) => {
            proof {
                crate::text::lemma_find_sub_props(val@, "SSID: ".spec_bytes());
                assert(i + ssid_pat@.len() <= n);
            }
            let rest = subrange_vec(val.as_slice(), i + ssid_pat.len(), n);
            let cut = prefix_until_either(rest.as_slice(), 44, 44);
            let t = trim(cut.as_slice());
            let sv = trim_byte(t.as_slice(), 34);
            if sv.len() > 0 && !crate::text::bytes_eq(sv.as_slice(), "<unknown ssid>".as_bytes()) {
                proof {
                    assert(sv.deep_view() =~= sv@);
                }
                Some(sv)
            } else {
                ssid0
            }
        },
        None => ssid0,
    };
    let ip_pat = "IP: ".as_bytes();
    let ip = match find_sub(val.as_slice(), ip_pat) {
        Some(i) => {
            proof {
                crate::text::lemma_find_sub_props(val@, "IP: ".spec_bytes());
                assert(i + ip_pat@.len() <= n);
            }
            let rest = subrange_vec(val.as_slice(), i + ip_pat.len(), n);
            let cut = prefix_until_either(rest.as_slice(), 44, 47);
            let iv = trim(cut.as_slice());
            if iv.len() > 0 && !crate::text::bytes_eq(iv.as_slice(), "0.0.0.0".as_bytes()) {
                proof {
                    assert(iv.deep_view() =~= iv@);
                }
                Some(iv)
            } else {
                ip0
            }
        },
        None => ip0,
    };
    (ssid, ip)
}

/// Parse a wireless diagnostic dump: always yields a record, with the
/// network name and address each `N/A` when not found.
pub fn parse_wifi(output: &str) -> (r: Option<WifiInfo>)
    ensures
        r.deep_view() == Some(spec_parse_wifi(output.spec_bytes())),
{
    let bytes = output.as_bytes();
    let ls = lines(bytes);
    let ghost ls_v = spec_lines(bytes@);
    let mut ssid: Option<Vec<u8>> = None;
    let mut ip: Option<Vec<u8>> = None;
    proof {
        assert(ls_v.subrange(0, ls_v.len() as int) =~= ls_v);
    }
    let mut k: usize = 0;
    while k < ls.len()
        invariant
            k <= ls@.len(),
            ls@.len() == ls_v.len(),
            forall|j: int| 0 <= j < ls@.len() ==> ls@[j]@ == ls_v[j],
            spec_wifi_scan(ls_v, (None, None)) == spec_wifi_scan(
                ls_v.subrange(k as int, ls_v.len() as int),
                (ssid.deep_view(), ip.deep_view()),
            ),
        decreases ls@.len() - k,
    {
        let ghost pre = ls_v.subrange(k as int, ls_v.len() as int);
        let ghost acc0 = (ssid.deep_view(), ip.deep_view());
        proof {
            assert(pre[0] == ls_v[k as int]);
            assert(ls@[k as int]@ == pre[0]);
            assert(pre.drop_first() =~= ls_v.subrange(k + 1, ls_v.len() as int));
        }
        if ssid.is_none() {
            let t = trim(ls[k].as_slice());
            match strip_prefix(t.as_slice(), "mWifiInfo".as_bytes()) {
                Some(val) => {
                    let pair = wifi_extract(&val, ssid, ip);
                    ssid = pair.0;
                    ip = pair.1;
                },
                None => {},
            }
        }
        proof {
            assert((ssid.deep_view(), ip.deep_view()) == spec_wifi_step(acc0, pre[0]));
            assert(spec_wifi_scan(pre, acc0) == spec_wifi_scan(
                pre.drop_first(),
                spec_wifi_step(acc0, pre[0]),
            ));
        }
        k = k + 1;
    }
    proof {
        assert(ls_v.subrange(ls_v.len() as int, ls_v.len() as int) =~= Seq::<Seq<u8>>::empty());
    }
    let ghost scan_res = (ssid.deep_view(), ip.deep_view());
    let ssid_out = match ssid {
        Some(s) => {
            proof {
                assert(s.deep_view() =~= s@);
            }
            s
        },
        None => {
            let mut v: Vec<u8> = Vec::new();
            push_all(&mut v, "N/A".as_bytes());
            proof {
                assert(v@ =~= "N/A".spec_bytes());
            }
            v
        },
    };
    let ip_out = match ip {
        Some(s) => {
            proof {
                assert(s.deep_view() =~= s@);
            }
            s
        },
        None => {
            let mut v: Vec<u8> = Vec::new();
            push_all(&mut v, "N/A".as_bytes());
            proof {
                assert(v@ =~= "N/A".spec_bytes());
            }
            v
        },
    };
    proof {
        assert(ssid_out@ == spec_or_na(scan_res.0));
        assert(ip_out@ == spec_or_na(scan_res.1));
    }
    Some(WifiInfo { ssid: ssid_out, ip: ip_out })
}

/// The full telemetry record for one device.  The eight text fields are
/// always present, `N/A` standing in for anything the device did not report;
/// the nested records are present only when their dump parsed.
#[derive(Debug, Clone, PartialEq, Eq)]
pub struct DeviceInfo {
    pub serial: Vec<u8>,
    pub model: Vec<u8>,
    pub android_version: Vec<u8>,
    pub api_level: Vec<u8>,
    pub state: Vec<u8>,
    pub connection_type: Vec<u8>,
    pub abi: Vec<u8>,
    pub locale: Vec<u8>,
    pub battery: Option<BatteryInfo>,
    pub storage: Option<StorageInfo>,
    pub ram: Option<RamInfo>,
    pub screen: Option<ScreenInfo>,
    pub wifi: Option<WifiInfo>,
}

/// Spec-level image of a `DeviceInfo`.
pub struct SpecDeviceInfo {
    pub serial: Seq<u8>,
    pub model: Seq<u8>,
    pub android_version: Seq<u8>,
    pub api_level: Seq<u8>,
    pub state: Seq<u8>,
    pub connection_type: Seq<u8>,
    pub abi: Seq<u8>,
    pub locale: Seq<u8>,
    pub battery: Option<SpecBatteryInfo>,
    pub storage: Option<StorageInfo>,
    pub ram: Option<RamInfo>,
    pub screen: Option<SpecScreenInfo>,
    pub wifi: Option<SpecWifiInfo>,
}

impl View for DeviceInfo {
    type V = SpecDeviceInfo;

    open spec fn view(&self) -> SpecDeviceInfo {
        SpecDeviceInfo {
            serial: self.serial@,
            model: self.model@,
            android_version: self.android_version@,
            api_level: self.api_level@,
            state: self.state@,
            connection_type: self.connection_type@,
            abi: self.abi@,
            locale: self.locale@,
            battery: self.battery.deep_view(),
            storage: self.storage,
            ram: self.ram,
            screen: self.screen.deep_view(),
            wifi: self.wifi.deep_view(),
        }
    }
}

impl DeepView for DeviceInfo {
    type V = SpecDeviceInfo;

    open spec fn deep_view(&self) -> SpecDeviceInfo {
        self.view()
    }
}

/// An empty text field reads `N/A`.
pub open spec fn spec_text_or_na(v: Seq<u8>) -> Seq<u8> {
    if v.len() == 0 {
        "N/A".spec_bytes()
    } else {
        v
    }
}

fn text_or_na(v: Vec<u8>) -> (r: Vec<u8>)
    ensures
        r@ == spec_text_or_na(v@),
{
    if v.len() == 0 {
        let mut r: Vec<u8> = Vec::new();
        push_all(&mut r, "N/A".as_bytes());
        proof {
            assert(r@ =~= "N/A".spec_bytes());
        }
        r
    } else {
        v
    }
}

/// The label shown for a connection kind.
pub open spec fn spec_connection_label(c: crate::device::ConnectionType) -> Seq<u8> {
    match c {
        crate::device::ConnectionType::Usb => "USB".spec_bytes(),
        crate::device::ConnectionType::Tcp => "TCP".spec_bytes(),
        crate::device::ConnectionType::Emulator => "Emulator".spec_bytes(),
    }
}

fn connection_label(c: crate::device::ConnectionType) -> (r: Vec<u8>)
    ensures
        r@ == spec_connection_label(c),
{
    let mut r: Vec<u8> = Vec::new();
    match c {
        crate::device::ConnectionType::Usb => {
            push_all(&mut r, "USB".as_bytes());
            proof {
                assert(r@ =~= "USB".spec_bytes());
            }
        },
        crate::device::ConnectionType::Tcp => {
            push_all(&mut r, "TCP".as_bytes());
            proof {
                assert(r@ =~= "TCP".spec_bytes());
            }
        },
        crate::device::ConnectionType::Emulator => {
            push_all(&mut r, "Emulator".as_bytes());
            proof {
                assert(r@ =~= "Emulator".spec_bytes());
            }
        },
    }
    r
}

/// The screen record combined from its two reports: present only when at
/// least the size was read; a missing density reads `N/A`.
pub open spec fn spec_screen_combine(
    size: Option<Seq<u8>>,
    density: Option<Seq<u8>>,
) -> Option<SpecScreenInfo> {
    match size {
        Some(res) => Some(
            SpecScreenInfo {
                resolution: res,
                density: match density {
                    Some(d) => d,
                    None => "N/A".spec_bytes(),
                },
            },
        ),
        None => None,
    }
}

/// The record assembled from one device and whatever its dumps yielded: the
/// model falls back to the display name, every empty text field to `N/A`,
/// and the screen combines its two reports.
pub open spec fn spec_assemble_device_info(
    device: crate::device::SpecDevice,
    props: SpecGetpropResult,
    battery: Option<SpecBatteryInfo>,
    storage: Option<StorageInfo>,
    ram: Option<RamInfo>,
    screen_size: Option<Seq<u8>>,
    screen_density: Option<Seq<u8>>,
    wifi: Option<SpecWifiInfo>,
) -> SpecDeviceInfo {
    SpecDeviceInfo {
        serial: device.serial,
        model: if props.model.len() > 0 {
            props.model
        } else {
            crate::device::spec_display_name(device)
        },
        android_version: spec_text_or_na(props.android_version),
        api_level: spec_text_or_na(props.api_level),
        state: crate::device::spec_state_label(device.state),
        connection_type: spec_connection_label(device.connection_type),
        abi: spec_text_or_na(props.abi),
        locale: spec_text_or_na(props.locale),
        battery: battery,
        storage: storage,
        ram: ram,
        screen: spec_screen_combine(screen_size, screen_density),
        wifi: wifi,
    }
}

/// Assemble the telemetry record for `device` out of the parsed pieces of
/// its diagnostic dumps.  A piece that failed to parse leaves its field
/// absent or `N/A`; assembly itself never fails.
pub fn assemble_device_info(
    device: &crate::device::Device,
    props: GetpropResult,
    battery: Option<BatteryInfo>,
    storage: Option<StorageInfo>,
    ram: Option<RamInfo>,
    screen_size: Option<Vec<u8>>,
    screen_density: Option<Vec<u8>>,
    wifi: Option<WifiInfo>,
) -> (r: DeviceInfo)
    ensures
        r@ == spec_assemble_device_info(
            device@,
            props@,
            battery.deep_view(),
            storage,
            ram,
            screen_size.deep_view(),
            screen_density.deep_view(),
            wifi.deep_view(),
        ),
{
    let ghost size_v = screen_size.deep_view();
    let ghost density_v = screen_density.deep_view();
    let model = if props.model.len() > 0 {
        props.model
    } else {
        device.display_name()
    };
    let screen = match screen_size {
        Some(res) => {
            proof {
                assert(res.deep_view() =~= res@);
            }
            let density = match screen_density {
                Some(d) => {
                    proof {
                        assert(d.deep_view() =~= d@);
                    }
                    d
                },
                None => {
                    let mut v: Vec<u8> = Vec::new();
                    push_all(&mut v, "N/A".as_bytes());
                    proof {
                        assert(v@ =~= "N/A".spec_bytes());
                    }
                    v
                },
            };
            Some(ScreenInfo { resolution: res, density })
        },
        None => None,
    };
    proof {
        assert(screen.deep_view() == spec_screen_combine(size_v, density_v));
    }
    DeviceInfo {
        serial: crate::device::copy_bytes(&device.serial),
        model,
        android_version: text_or_na(props.android_version),
        api_level: text_or_na(props.api_level),
        state: device.state.label(),
        connection_type: connection_label(device.connection_type),
        abi: text_or_na(props.abi),
        locale: text_or_na(props.locale),
        battery,
        storage,
        ram,
        screen,
        wifi,
    }
}


impl BatteryInfo {
    /// Field-for-field copy.
    pub fn duplicate(&self) -> (r: BatteryInfo)
        ensures
            r@ == self@,
    {
        BatteryInfo { level: self.level, status: crate::device::copy_bytes(&self.status) }
    }
}

impl ScreenInfo {
    /// Field-for-field copy.
    pub fn duplicate(&self) -> (r: ScreenInfo)
        ensures
            r@ == self@,
    {
        ScreenInfo {
            resolution: crate::device::copy_bytes(&self.resolution),
            density: crate::device::copy_bytes(&self.density),
        }
    }
}

impl WifiInfo {
    /// Field-for-field copy.
    pub fn duplicate(&self) -> (r: WifiInfo)
        ensures
            r@ == self@,
    {
        WifiInfo {
            ssid: crate::device::copy_bytes(&self.ssid),
            ip: crate::device::copy_bytes(&self.ip),
        }
    }
}

impl DeviceInfo {
    /// Field-for-field copy.
    pub fn duplicate(&self) -> (r: DeviceInfo)
        ensures
            r@ == self@,
    {
        DeviceInfo {
            serial: crate::device::copy_bytes(&self.serial),
            model: crate::device::copy_bytes(&self.model),
            android_version: crate::device::copy_bytes(&self.android_version),
            api_level: crate::device::copy_bytes(&self.api_level),
            state: crate::device::copy_bytes(&self.state),
            connection_type: crate::device::copy_bytes(&self.connection_type),
            abi: crate::device::copy_bytes(&self.abi),
            locale: crate::device::copy_bytes(&self.locale),
            battery: match &self.battery {
                Some(b) => Some(b.duplicate()),
                None => None,
            },
            storage: self.storage,
            ram: self.ram,
            screen: match &self.screen {
                Some(sc) => Some(sc.duplicate()),
                None => None,
            },
            wifi: match &self.wifi {
                Some(w) => Some(w.duplicate()),
                None => None,
            },
        }
    }
}

} // verus!
