//! Cross-platform GPU discovery.
//!
//! macOS: `system_profiler SPDisplaysDataType -json` runs without sudo and
//! gives name + vendor + shared VRAM. Linux: `/sys/class/drm/card*/device/`
//! holds the vendor / device PCI IDs, and `gpu_busy_percent` per tick when
//! the driver exposes it (AMDGPU, recent i915).
//!
//! The binary runs the command and reads the files; this module turns
//! what they return into devices.

use vstd::prelude::*;

use crate::power::{opt_chars, trimmed_file};
use crate::text::{
    ascii_lower, ascii_upper, chars_eq, chars_of, contains_char, first_two_words, has_prefix, slice_chars,
    starts_with, string_from_chars, string_of, to_ascii_upper, trim_chars, trim_ws, words,
};

verus! {

/// One GPU. `vram_text` is the VRAM size as macOS prints it ("16 GB");
/// the byte counts are filled in by whoever can compute them.
#[derive(Debug)]
pub struct GpuDevice {
    pub name: String,
    pub vendor: String,
    pub driver: Option<String>,
    pub vram_total_bytes: Option<u64>,
    pub vram_used_bytes: Option<u64>,
    pub vram_text: Option<String>,
    pub live_data_hint: Option<String>,
}

pub struct GpuView {
    pub name: Seq<char>,
    pub vendor: Seq<char>,
    pub driver: Option<Seq<char>>,
    pub vram_total_bytes: Option<u64>,
    pub vram_used_bytes: Option<u64>,
    pub vram_text: Option<Seq<char>>,
    pub live_data_hint: Option<Seq<char>>,
}

impl View for GpuDevice {
    type V = GpuView;

    open spec fn view(&self) -> GpuView {
        GpuView {
            name: self.name@,
            vendor: self.vendor@,
            driver: self.driver.deep_view(),
            vram_total_bytes: self.vram_total_bytes,
            vram_used_bytes: self.vram_used_bytes,
            vram_text: self.vram_text.deep_view(),
            live_data_hint: self.live_data_hint.deep_view(),
        }
    }
}

fn copy_opt_string(o: &Option<String>) -> (r: Option<String>)
    ensures
        r.deep_view() == o.deep_view(),
{
    match o {
        Some(s) => Some(s.clone()),
        None => None,
    }
}

impl GpuDevice {
    /// A field-by-field copy.
    pub fn duplicate(&self) -> (r: GpuDevice)
        ensures
            r@ == self@,
    {
        GpuDevice {
            name: self.name.clone(),
            vendor: self.vendor.clone(),
            driver: copy_opt_string(&self.driver),
            vram_total_bytes: self.vram_total_bytes,
            vram_used_bytes: self.vram_used_bytes,
            vram_text: copy_opt_string(&self.vram_text),
            live_data_hint: copy_opt_string(&self.live_data_hint),
        }
    }
}

/// The views of a list of devices.
pub open spec fn views(v: Seq<GpuDevice>) -> Seq<GpuView> {
    v.map_values(|d: GpuDevice| d@)
}

pub open spec fn hint_macos() -> Seq<char> {
    "live util/temp/power requires `sudo powermetrics --samplers gpu_power` (deferred)"@
}

pub open spec fn hint_linux() -> Seq<char> {
    "driver doesn't expose gpu_busy_percent; install nvml or amdgpu-tools"@
}

// ───────────────────────── macOS ─────────────────────────

/// For each entry of the array under `array_key` in the JSON object
/// `text`, the value of each of `keys`: None when the key is absent,
/// Some(None) when its value is not a string, Some(Some(s)) for the
/// string s. None when the text is not JSON or has no such array.
pub uninterp spec fn display_fields(
    text: Seq<char>,
    array_key: Seq<char>,
    keys: Seq<Seq<char>>,
) -> Option<
    Seq<Seq<Option<Option<Seq<char>>>>>,
>;

/// Parses `text` with `serde_json::from_str` into a `serde_json::Value`,
/// takes its array under `array_key` (`Value::get`, `Value::as_array`)
/// and, per entry, looks up each of `keys` (`Value::get`, `Value::as_str`).
/// Claimed: the result is `display_fields` of the arguments, and each
/// entry has one slot per key.
#[verifier::external_body]
fn display_fields_of(text: &str, array_key: &str, keys: &Vec<&str>) -> (r: Option<
    Vec<Vec<Option<Option<String>>>>,
>)
    ensures
        r.deep_view() == display_fields(text@, array_key@, keys.deep_view()),
        r matches Some(ds) ==> forall|i: int| 0 <= i < ds.len() ==> (#[trigger] ds[i]).len() == keys.len(),
{
    let v: serde_json::Value = serde_json::from_str(text).ok()?;
    let arr = v.get(array_key)?.as_array()?;
    Some(
        arr.iter().map(
            |d| keys.iter().map(|k| d.get(*k).map(|x| x.as_str().map(String::from))).collect(),
        ).collect(),
    )
}

/// The key of the display array in the profiler's JSON.
pub open spec fn displays_key() -> Seq<char> {
    "SPDisplaysDataType"@
}

/// The keys read from each display entry, in slot order.
pub open spec fn display_keys() -> Seq<Seq<char>> {
    seq![
        "sppci_model"@,
        "_name"@,
        "spdisplays_vendor"@,
        "spdisplays_vram_shared"@,
        "spdisplays_vram"@,
        "spdisplays_metalfamily"@,
        "spdisplays_mtlgpufamilysupport"@,
    ]
}

pub const SLOT_MODEL: usize = 0;

pub const SLOT_NAME: usize = 1;

pub const SLOT_VENDOR: usize = 2;

pub const SLOT_VRAM_SHARED: usize = 3;

pub const SLOT_VRAM: usize = 4;

pub const SLOT_METAL: usize = 5;

pub const SLOT_METAL_SUPPORT: usize = 6;

/// `d.get(a).or_else(|| d.get(b))`.
pub open spec fn or_else_slot(d: Seq<Option<Option<Seq<char>>>>, a: int, b: int) -> Option<
    Option<Seq<char>>,
> {
    if d[a] is Some {
        d[a]
    } else {
        d[b]
    }
}

/// `.and_then(|v| v.as_str())`.
pub open spec fn as_str(v: Option<Option<Seq<char>>>) -> Option<Seq<char>> {
    match v {
        Some(Some(s)) => Some(s),
        _ => None,
    }
}

/// `s.trim_start_matches(p)`: `s` without any number of leading copies of `p`.
pub open spec fn trim_start_matches(s: Seq<char>, p: Seq<char>) -> Seq<char>
    decreases s.len(),
{
    if p.len() > 0 && starts_with(s, p) {
        trim_start_matches(s.subrange(p.len() as int, s.len() as int), p)
    } else {
        s
    }
}

/// SPDisplays reports vendors as localisation keys like
/// "sppci_vendor_Apple"; the prefix and any "0x" are stripped.
pub open spec fn vendor_name(v: Option<Seq<char>>) -> Seq<char> {
    match v {
        Some(s) => {
            let p = "sppci_vendor_"@;
            let base = if starts_with(s, p) {
                s.subrange(p.len() as int, s.len() as int)
            } else {
                s
            };
            trim_start_matches(base, "0x"@)
        },
        None => "Apple"@,
    }
}

/// The device one display entry describes.
pub open spec fn mac_device(d: Seq<Option<Option<Seq<char>>>>) -> GpuView {
    GpuView {
        name: match as_str(or_else_slot(d, 0, 1)) {
            Some(s) => s,
            None => "Unknown GPU"@,
        },
        vendor: vendor_name(as_str(d[2])),
        driver: as_str(or_else_slot(d, 5, 6)),
        vram_total_bytes: None,
        vram_used_bytes: None,
        vram_text: as_str(or_else_slot(d, 3, 4)),
        live_data_hint: Some(hint_macos()),
    }
}

/// The devices described by `system_profiler SPDisplaysDataType -json`
/// output; none when it cannot be read.
pub open spec fn mac_devices(text: Seq<char>) -> Seq<GpuView> {
    match display_fields(text, displays_key(), display_keys()) {
        Some(ds) => ds.map_values(|d: Seq<Option<Option<Seq<char>>>>| mac_device(d)),
        None => Seq::empty(),
    }
}

fn slot_or_else(d: &Vec<Option<Option<String>>>, a: usize, b: usize) -> (r: Option<String>)
    requires
        a < d.len(),
        b < d.len(),
    ensures
        r.deep_view() == as_str(or_else_slot(d.deep_view(), a as int, b as int)),
{
    let picked = if d[a].is_some() {
        &d[a]
    } else {
        &d[b]
    };
    slot_str(picked)
}

fn slot_str(v: &Option<Option<String>>) -> (r: Option<String>)
    ensures
        r.deep_view() == as_str(v.deep_view()),
{
    match v {
        Some(Some(s)) => Some(s.clone()),
        _ => None,
    }
}

fn strip_leading(s: &Vec<char>, p: &Vec<char>) -> (r: Vec<char>)
    requires
        p.len() > 0,
    ensures
        r@ == trim_start_matches(s@, p@),
{
    let n = s.len();
    let m = p.len();
    let mut i: usize = 0;
    assert(s@.subrange(0, n as int) =~= s@);
    while m <= n - i && crate::text::matches_at(s, p, i)
        invariant
            i <= n == s.len(),
            m == p.len() > 0,
            trim_start_matches(s@, p@) == trim_start_matches(s@.subrange(i as int, n as int), p@),
        decreases n - i,
    {
        let ghost rest = s@.subrange(i as int, n as int);
        assert(rest.subrange(0, m as int) =~= s@.subrange(i as int, i + m));
        assert(rest.subrange(m as int, rest.len() as int) =~= s@.subrange(i + m, n as int));
        i = i + m;
    }
    proof {
        let rest = s@.subrange(i as int, n as int);
        if i + m <= n {
            assert(rest.subrange(0, m as int) =~= s@.subrange(i as int, i + m));
        }
    }
    slice_chars(s, i, n)
}

fn vendor_of(v: &Option<String>) -> (r: String)
    ensures
        r@ == vendor_name(v.deep_view()),
{
    match v {
        Some(s) => {
            let c = chars_of(s.as_str());
            let p = chars_of("sppci_vendor_");
            let base = if has_prefix(&c, &p) {
                slice_chars(&c, p.len(), c.len())
            } else {
                c
            };
            let hex = chars_of("0x");
            proof {
                reveal_strlit("0x");
            }
            let stripped = strip_leading(&base, &hex);
            string_from_chars(&stripped)
        },
        None => string_of("Apple"),
    }
}

fn mac_device_of(d: &Vec<Option<Option<String>>>) -> (r: GpuDevice)
    requires
        d.len() == 7,
    ensures
        r@ == mac_device(d.deep_view()),
{
    let name = match slot_or_else(d, SLOT_MODEL, SLOT_NAME) {
        Some(s) => s,
        None => string_of("Unknown GPU"),
    };
    let vendor_raw = slot_str(&d[SLOT_VENDOR]);
    GpuDevice {
        name,
        vendor: vendor_of(&vendor_raw),
        driver: slot_or_else(d, SLOT_METAL, SLOT_METAL_SUPPORT),
        vram_total_bytes: None,
        vram_used_bytes: None,
        vram_text: slot_or_else(d, SLOT_VRAM_SHARED, SLOT_VRAM),
        live_data_hint: Some(
            string_of(
                "live util/temp/power requires `sudo powermetrics --samplers gpu_power` (deferred)",
            ),
        ),
    }
}

/// GPUs from `system_profiler SPDisplaysDataType -json` output: one per
/// entry of its display array, none when the output cannot be parsed.
pub fn discover_from_system_profiler(text: &str) -> (r: Vec<GpuDevice>)
    ensures
        views(r@) == mac_devices(text@),
{
    let mut keys: Vec<&str> = Vec::new();
    keys.push("sppci_model");
    keys.push("_name");
    keys.push("spdisplays_vendor");
    keys.push("spdisplays_vram_shared");
    keys.push("spdisplays_vram");
    keys.push("spdisplays_metalfamily");
    keys.push("spdisplays_mtlgpufamilysupport");
    assert(keys.deep_view() =~= display_keys());
    let fields = match display_fields_of(text, "SPDisplaysDataType", &keys) {
        Some(f) => f,
        None => {
            let empty: Vec<GpuDevice> = Vec::new();
            assert(views(empty@) =~= Seq::<GpuView>::empty());
            return empty;
        },
    };
    let ghost ds = fields.deep_view();
    let mut out: Vec<GpuDevice> = Vec::new();
    let n = fields.len();
    for i in 0..n
        invariant
            n == fields.len(),
            ds == fields.deep_view(),
            ds == display_fields(text@, displays_key(), display_keys())->0,
            display_fields(text@, displays_key(), display_keys()) is Some,
            forall|j: int| 0 <= j < n ==> (#[trigger] fields@[j]).len() == 7,
            views(out@) =~= ds.take(i as int).map_values(
                |d: Seq<Option<Option<Seq<char>>>>| mac_device(d),
            ),
    {
        let dev = mac_device_of(&fields[i]);
        assert(fields@[i as int].deep_view() == ds[i as int]);
        let ghost before = out@;
        out.push(dev);
        assert(views(out@) =~= views(before).push(out@.last()@));
        assert(ds.take(i + 1) =~= ds.take(i as int).push(ds[i as int]));
    }
    assert(ds.take(n as int) =~= ds);
    out
}

/// Bytes per unit of a VRAM size: GB, MB and KB in any case are powers
/// of 1024; anything else (or no unit) counts bytes.
pub open spec fn unit_bytes(unit: Option<Seq<char>>) -> u64 {
    match unit {
        Some(u) => if ascii_upper(u) == "GB"@ {
            1_073_741_824u64
        } else if ascii_upper(u) == "MB"@ {
            1_048_576u64
        } else if ascii_upper(u) == "KB"@ {
            1024
        } else {
            1
        },
        None => 1,
    }
}

/// A VRAM size as macOS prints it ("16 GB" / "8192 MB" / "1024"), split
/// into the number's text (first word) and the bytes per unit (second
/// word); None when the string has no words. The number itself may be
/// fractional, so reading it is left to the caller.
pub fn vram_parts(s: &str) -> (r: Option<(String, u64)>)
    ensures
        words(s@).len() == 0 ==> r is None,
        words(s@).len() > 0 ==> (r matches Some(p) && p.0@ == words(s@)[0] && p.1 == unit_bytes(
            if words(s@).len() > 1 {
                Some(words(s@)[1])
            } else {
                None
            },
        )),
{
    let c = chars_of(s);
    let (first, second) = first_two_words(&c);
    let number = match first {
        Some(w) => w,
        None => {
            return None;
        },
    };
    let mult: u64 = match second {
        Some(u) => {
            let up = to_ascii_upper(&u);
            if chars_eq(&up, &chars_of("GB")) {
                1024 * 1024 * 1024
            } else if chars_eq(&up, &chars_of("MB")) {
                1024 * 1024
            } else if chars_eq(&up, &chars_of("KB")) {
                1024
            } else {
                1
            }
        },
        None => 1,
    };
    Some((string_from_chars(&number), mult))
}

// ───────────────────────── Linux ─────────────────────────

/// One `/sys/class/drm` entry: its file name, and the `device/vendor` and
/// `device/device` files (None when unreadable).
pub struct DrmEntry {
    pub name: String,
    pub vendor: Option<String>,
    pub device: Option<String>,
}

/// `cardN` entries (no connector suffix like `card0-HDMI-A-1`).
pub open spec fn is_card(name: Seq<char>) -> bool {
    starts_with(name, "card"@) && !name.contains('-')
}

/// Vendor name for a PCI vendor ID.
pub open spec fn pci_vendor(id: Option<Seq<char>>) -> Seq<char> {
    if id == Some("0x10de"@) {
        "NVIDIA"@
    } else if id == Some("0x1002"@) {
        "AMD"@
    } else if id == Some("0x8086"@) {
        "Intel"@
    } else {
        "Unknown"@
    }
}

/// The device a card entry describes: "<vendor> <device id>".
pub open spec fn drm_device(e: DrmEntry) -> GpuView {
    let vendor = pci_vendor(trimmed_file(e.vendor.deep_view()));
    GpuView {
        name: vendor + " "@ + match trimmed_file(e.device.deep_view()) {
            Some(d) => d,
            None => "Unknown"@,
        },
        vendor,
        driver: None,
        vram_total_bytes: None,
        vram_used_bytes: None,
        vram_text: None,
        live_data_hint: Some(hint_linux()),
    }
}

/// The devices among the first `k` entries, in listing order.
pub open spec fn drm_devices(es: Seq<DrmEntry>, k: int) -> Seq<GpuView>
    decreases k,
{
    if k <= 0 {
        Seq::empty()
    } else if is_card(es[k - 1].name@) {
        drm_devices(es, k - 1).push(drm_device(es[k - 1]))
    } else {
        drm_devices(es, k - 1)
    }
}

fn trimmed(f: &Option<String>) -> (r: Option<Vec<char>>)
    ensures
        opt_chars(r) == trimmed_file(f.deep_view()),
{
    match f {
        Some(t) => {
            let c = chars_of(t.as_str());
            Some(trim_chars(&c, false))
        },
        None => None,
    }
}

fn pci_vendor_of(id: &Option<Vec<char>>) -> (r: String)
    ensures
        r@ == pci_vendor(opt_chars(*id)),
{
    match id {
        Some(v) => {
            if chars_eq(v, &chars_of("0x10de")) {
                string_of("NVIDIA")
            } else if chars_eq(v, &chars_of("0x1002")) {
                string_of("AMD")
            } else if chars_eq(v, &chars_of("0x8086")) {
                string_of("Intel")
            } else {
                string_of("Unknown")
            }
        },
        None => string_of("Unknown"),
    }
}

fn drm_device_of(e: &DrmEntry) -> (r: GpuDevice)
    ensures
        r@ == drm_device(*e),
{
    let vendor = pci_vendor_of(&trimmed(&e.vendor));
    let mut name = chars_of(vendor.as_str());
    name.push(' ');
    let dev = match trimmed(&e.device) {
        Some(d) => d,
        None => chars_of("Unknown"),
    };
    let ghost before = name@;
    let mut k: usize = 0;
    while k < dev.len()
        invariant
            k <= dev.len(),
            name@ == before + dev@.subrange(0, k as int),
        decreases dev.len() - k,
    {
        name.push(dev[k]);
        k = k + 1;
    }
    proof {
        reveal_strlit(" ");
        assert(before =~= vendor@ + " "@);
        assert(dev@.subrange(0, dev@.len() as int) =~= dev@);
    }
    GpuDevice {
        name: string_from_chars(&name),
        vendor,
        driver: None,
        vram_total_bytes: None,
        vram_used_bytes: None,
        vram_text: None,
        live_data_hint: Some(string_of("driver doesn't expose gpu_busy_percent; install nvml or amdgpu-tools")),
    }
}

/// GPUs from the `/sys/class/drm` entries, in listing order.
pub fn discover_from_drm(entries: &Vec<DrmEntry>) -> (r: Vec<GpuDevice>)
    ensures
        views(r@) == drm_devices(entries@, entries@.len() as int),
{
    let mut out: Vec<GpuDevice> = Vec::new();
    let n = entries.len();
    let card = chars_of("card");
    for i in 0..n
        invariant
            n == entries.len(),
            card@ == "card"@,
            views(out@) =~= drm_devices(entries@, i as int),
    {
        let e = &entries[i];
        let name = chars_of(e.name.as_str());
        if has_prefix(&name, &card) && !contains_char(&name, '-') {
            let ghost before = out@;
            out.push(drm_device_of(e));
            assert(views(out@) =~= views(before).push(out@.last()@));
        }
    }
    out
}

// ───────────────────────── discovery cache ─────────────────────────

/// GPUs found at startup (the macOS subprocess is too slow to poll).
pub struct GpuDiscovery {
    pub devices: Vec<GpuDevice>,
}

impl GpuDiscovery {
    pub fn new(devices: Vec<GpuDevice>) -> (r: GpuDiscovery)
        ensures
            r.devices@ == devices@,
    {
        GpuDiscovery { devices }
    }

    /// The devices for this tick: the cached ones, with the "no live data"
    /// hint cleared for each device `i` that has a live reading
    /// (`live[i]`).
    pub fn refresh(&self, live: &Vec<bool>) -> (r: Vec<GpuDevice>)
        ensures
            r@.len() == self.devices@.len(),
            forall|i: int|
                0 <= i < r@.len() ==> (#[trigger] r@[i])@ == if i < live@.len() && live@[i] {
                    GpuView { live_data_hint: None, ..self.devices@[i]@ }
                } else {
                    self.devices@[i]@
                },
    {
        let mut out: Vec<GpuDevice> = Vec::new();
        let n = self.devices.len();
        for i in 0..n
            invariant
                n == self.devices.len(),
                out@.len() == i,
                forall|j: int|
                    0 <= j < i ==> (#[trigger] out@[j])@ == if j < live@.len() && live@[j] {
                        GpuView { live_data_hint: None, ..self.devices@[j]@ }
                    } else {
                        self.devices@[j]@
                    },
        {
            let mut d = self.devices[i].duplicate();
            if i < live.len() && live[i] {
                d.live_data_hint = None;
            }
            out.push(d);
        }
        out
    }
}

/// VRAM units are binary: "GB", "MB" and "KB" in any ASCII case stand for
/// 1024^3, 1024^2 and 1024 bytes, and any other unit (or none) for one
/// byte, so a size never scales by a power of 1000.
pub proof fn lemma_vram_units_binary(u: Seq<char>)
    ensures
        ascii_lower(u) == seq!['g', 'b'] ==> unit_bytes(Some(u)) == 1024 * 1024 * 1024,
        ascii_lower(u) == seq!['m', 'b'] ==> unit_bytes(Some(u)) == 1024 * 1024,
        ascii_lower(u) == seq!['k', 'b'] ==> unit_bytes(Some(u)) == 1024,
        ascii_lower(u) != seq!['g', 'b'] && ascii_lower(u) != seq!['m', 'b'] && ascii_lower(u)
            != seq!['k', 'b'] ==> unit_bytes(Some(u)) == 1,
        unit_bytes(None) == 1,
{
    reveal_strlit("GB");
    reveal_strlit("MB");
    reveal_strlit("KB");
    assert("GB"@ =~= seq!['G', 'B']);
    assert("MB"@ =~= seq!['M', 'B']);
    assert("KB"@ =~= seq!['K', 'B']);
    let l = ascii_lower(u);
    let up = ascii_upper(u);
    assert(l.len() == u.len() && up.len() == u.len());
    if up == seq!['G', 'B'] || up == seq!['M', 'B'] || up == seq!['K', 'B'] {
        assert(l =~= seq![crate::text::lower_char(up[0]), crate::text::lower_char(up[1])]) by {
            assert(up[0] == crate::text::upper_char(u[0]));
            assert(up[1] == crate::text::upper_char(u[1]));
        }
    }
    if l == seq!['g', 'b'] || l == seq!['m', 'b'] || l == seq!['k', 'b'] {
        assert(up =~= seq![crate::text::upper_char(l[0]), crate::text::upper_char(l[1])]) by {
            assert(l[0] == crate::text::lower_char(u[0]));
            assert(l[1] == crate::text::lower_char(u[1]));
        }
    }
}

} // verus!
