//! Battery / thermal / fan readings.
//!
//! macOS (no sudo): `ioreg -rn AppleSmartBattery` for charge / cycles /
//! health / temperature / voltage / current, `pmset -g batt` for "drawing
//! from AC" vs "Battery", and `pmset -g therm` for the CPU speed limit.
//! Linux: `/sys/class/power_supply/*`, `/sys/class/thermal/thermal_zone*`
//! and `/sys/class/hwmon/hwmon*/fan*`.
//!
//! The binary runs the commands and reads the files; this module turns
//! their text into readings. Quantities that the front end shows as
//! fractions (percent charge, volts, degrees) are handed on as the text
//! the platform printed, for the front end to scale.

use vstd::prelude::*;

use crate::num::{parse_i64, parse_signed, parse_u32, parse_u64, parse_unsigned, decimal, push_decimal};
use crate::text::{
    ascii_lower, chars_eq, chars_of, eq_ignore_ascii_case, eq_ignore_case, find, find_from,
    find_spec, has_prefix, is_ws, lines_of, lines_spec, occurs_at, slice_chars, starts_with,
    string_from_chars, trim_chars, trim_end_spec, trim_spec, trim_start_spec, trim_ws, trimmed,
};

verus! {

/// Where the machine draws its power from.
#[derive(Debug, Clone, Copy, PartialEq, Eq, Structural)]
pub enum PowerSource {
    Ac,
    Battery,
    Unknown,
}

// ───────────────────────── pmset -g batt ─────────────────────────

/// The source a `pmset -g batt` line names, if it names one:
/// "Now drawing from 'AC Power'" → Ac, "... 'Battery Power'" → Battery.
pub open spec fn line_source(line: Seq<char>) -> Option<PowerSource> {
    match find_spec(line, "drawing from '"@) {
        None => None,
        Some(start) => {
            let rest = line.subrange(start + "drawing from '"@.len(), line.len() as int);
            match find_spec(rest, "'"@) {
                None => None,
                Some(end) => {
                    let label = rest.subrange(0, end);
                    if starts_with(label, "AC"@) {
                        Some(PowerSource::Ac)
                    } else if starts_with(label, "Battery"@) {
                        Some(PowerSource::Battery)
                    } else {
                        None
                    }
                },
            }
        },
    }
}

/// The first source named by any of `lines[k..]`, else Unknown.
pub open spec fn source_from(lines: Seq<Seq<char>>, k: int) -> PowerSource
    decreases lines.len() - k,
{
    if k < 0 || k >= lines.len() {
        PowerSource::Unknown
    } else {
        match line_source(lines[k]) {
            Some(s) => s,
            None => source_from(lines, k + 1),
        }
    }
}

/// The power source a `pmset -g batt` report names.
pub open spec fn pmset_source(text: Seq<char>) -> PowerSource {
    source_from(lines_spec(text), 0)
}

fn source_of_line(line: &Vec<char>) -> (r: Option<PowerSource>)
    ensures
        r == line_source(line@),
{
    let pat = chars_of("drawing from '");
    match find(line, &pat) {
        None => None,
        Some(start) => {
            proof {
                crate::text::lemma_find_from_range(line@, pat@, 0);
            }
            let rest = slice_chars(line, start + pat.len(), line.len());
            let quote = chars_of("'");
            match find(&rest, &quote) {
                None => None,
                Some(end) => {
                    proof {
                        crate::text::lemma_find_from_range(rest@, quote@, 0);
                    }
                    let label = slice_chars(&rest, 0, end);
                    if has_prefix(&label, &chars_of("AC")) {
                        Some(PowerSource::Ac)
                    } else if has_prefix(&label, &chars_of("Battery")) {
                        Some(PowerSource::Battery)
                    } else {
                        None
                    }
                },
            }
        },
    }
}

/// Power source from `pmset -g batt`'s "Now drawing from 'X Power'" line.
pub fn parse_macos_pmset_source(text: &str) -> (r: PowerSource)
    ensures
        r == pmset_source(text@),
{
    let chars = chars_of(text);
    let lines = lines_of(&chars);
    let n = lines.len();
    let mut k: usize = 0;
    while k < n
        invariant
            n == lines@.len() == lines_spec(chars@).len(),
            chars@ == text@,
            forall|j: int| 0 <= j < n ==> #[trigger] lines@[j]@ == lines_spec(chars@)[j],
            pmset_source(text@) == source_from(lines_spec(chars@), k as int),
        decreases n - k,
    {
        match source_of_line(&lines[k]) {
            Some(s) => {
                return s;
            },
            None => {},
        }
        k = k + 1;
    }
    PowerSource::Unknown
}

// ───────────────────────── pmset -g therm ─────────────────────────

/// The CPU speed limit a `pmset -g therm` line reports, if it is the
/// "CPU_Speed_Limit \t= N" line with a readable N.
pub open spec fn line_speed_limit(line: Seq<char>) -> Option<u32> {
    let l = trim_ws(line);
    let key = "CPU_Speed_Limit"@;
    if starts_with(l, key) {
        let rest = l.subrange(key.len() as int, l.len() as int);
        match find_spec(rest, "="@) {
            None => None,
            Some(eq) => match parse_unsigned(trim_ws(rest.subrange(eq + 1, rest.len() as int)), u32::MAX as nat) {
                Some(n) => Some(n as u32),
                None => None,
            },
        }
    } else {
        None
    }
}

pub open spec fn throttle_from(lines: Seq<Seq<char>>, k: int) -> u32
    decreases lines.len() - k,
{
    if k < 0 || k >= lines.len() {
        100
    } else {
        match line_speed_limit(lines[k]) {
            Some(n) => n,
            None => throttle_from(lines, k + 1),
        }
    }
}

/// The CPU speed limit (%) a `pmset -g therm` report gives: the first
/// readable "CPU_Speed_Limit = N", else 100 (no throttling recorded).
pub open spec fn pmset_throttle(text: Seq<char>) -> u32 {
    throttle_from(lines_spec(text), 0)
}

fn speed_limit_of_line(line: &Vec<char>) -> (r: Option<u32>)
    ensures
        r == line_speed_limit(line@),
{
    let l = trim_chars(line, false);
    let key = chars_of("CPU_Speed_Limit");
    if !has_prefix(&l, &key) {
        return None;
    }
    let rest = slice_chars(&l, key.len(), l.len());
    let eq_sign = chars_of("=");
    proof {
        reveal_strlit("=");
    }
    match find(&rest, &eq_sign) {
        None => None,
        Some(eq) => {
            proof {
                crate::text::lemma_find_from_range(rest@, eq_sign@, 0);
            }
            let value = slice_chars(&rest, eq + 1, rest.len());
            let value = trim_chars(&value, false);
            parse_u32(&value)
        },
    }
}

/// CPU speed limit (%) from `pmset -g therm`: 100 when no limit is reported.
pub fn parse_macos_pmset_throttle(text: &str) -> (r: u32)
    ensures
        r == pmset_throttle(text@),
{
    let chars = chars_of(text);
    let lines = lines_of(&chars);
    let n = lines.len();
    let mut k: usize = 0;
    while k < n
        invariant
            n == lines@.len() == lines_spec(chars@).len(),
            chars@ == text@,
            forall|j: int| 0 <= j < n ==> #[trigger] lines@[j]@ == lines_spec(chars@)[j],
            pmset_throttle(text@) == throttle_from(lines_spec(chars@), k as int),
        decreases n - k,
    {
        match speed_limit_of_line(&lines[k]) {
            Some(v) => {
                return v;
            },
            None => {},
        }
        k = k + 1;
    }
    100
}

// ───────────────────────── ioreg AppleSmartBattery ─────────────────────────

/// A battery as `ioreg -rn AppleSmartBattery` reports it. `charge_text`,
/// `health_text`, `temp_text` and `voltage_text` are the printed values
/// of CurrentCapacity (%), MaxCapacity (% of design), Temperature
/// (centi-degrees C) and Voltage (mV).
#[derive(Debug)]
pub struct IoregBattery {
    pub charge_text: String,
    pub health_text: Option<String>,
    pub cycle_count: Option<u32>,
    pub temp_text: Option<String>,
    pub voltage_text: Option<String>,
    pub amperage_ma: Option<i32>,
    pub time_remaining_min: Option<u32>,
    pub is_charging: bool,
    pub fully_charged: bool,
}

/// The fields of an `IoregBattery`, and whether a CurrentCapacity line
/// has been seen.
pub struct IoregView {
    pub charge_text: Seq<char>,
    pub health_text: Option<Seq<char>>,
    pub cycle_count: Option<u32>,
    pub temp_text: Option<Seq<char>>,
    pub voltage_text: Option<Seq<char>>,
    pub amperage_ma: Option<i32>,
    pub time_remaining_min: Option<u32>,
    pub is_charging: bool,
    pub fully_charged: bool,
    pub saw_charge: bool,
}

impl IoregBattery {
    pub open spec fn view_with(&self, saw_charge: bool) -> IoregView {
        IoregView {
            charge_text: self.charge_text@,
            health_text: self.health_text.deep_view(),
            cycle_count: self.cycle_count,
            temp_text: self.temp_text.deep_view(),
            voltage_text: self.voltage_text.deep_view(),
            amperage_ma: self.amperage_ma,
            time_remaining_min: self.time_remaining_min,
            is_charging: self.is_charging,
            fully_charged: self.fully_charged,
            saw_charge,
        }
    }
}

pub open spec fn ioreg_start() -> IoregView {
    IoregView {
        charge_text: Seq::empty(),
        health_text: None,
        cycle_count: None,
        temp_text: None,
        voltage_text: None,
        amperage_ma: None,
        time_remaining_min: None,
        is_charging: false,
        fully_charged: false,
        saw_charge: false,
    }
}

/// `val.parse::<u32>().ok()`.
pub open spec fn u32_of(val: Seq<char>) -> Option<u32> {
    match parse_unsigned(val, u32::MAX as nat) {
        Some(n) => Some(n as u32),
        None => None,
    }
}

/// The Amperage field: printed as an unsigned 64-bit integer although it
/// is signed, so it goes u64 → i64 → i32.
pub open spec fn amperage_of(val: Seq<char>) -> Option<i32> {
    match parse_unsigned(val, u64::MAX as nat) {
        Some(n) => Some(((n as u64) as i64) as i32),
        None => None,
    }
}

/// Minutes remaining, ignoring 0 and the 65535-style "unknown" values.
pub open spec fn time_remaining_of(val: Seq<char>) -> Option<u32> {
    match u32_of(val) {
        Some(v) => if 0 < v < 60_000 {
            Some(v)
        } else {
            None
        },
        None => None,
    }
}

/// The reading after the field `key = val`.
pub open spec fn ioreg_field(acc: IoregView, key: Seq<char>, val: Seq<char>) -> IoregView {
    if key == "CurrentCapacity"@ {
        IoregView { charge_text: val, saw_charge: true, ..acc }
    } else if key == "MaxCapacity"@ {
        IoregView { health_text: Some(val), ..acc }
    } else if key == "CycleCount"@ {
        IoregView { cycle_count: u32_of(val), ..acc }
    } else if key == "Temperature"@ {
        IoregView { temp_text: Some(val), ..acc }
    } else if key == "Voltage"@ {
        IoregView { voltage_text: Some(val), ..acc }
    } else if key == "Amperage"@ {
        IoregView { amperage_ma: amperage_of(val), ..acc }
    } else if key == "TimeRemaining"@ {
        IoregView { time_remaining_min: time_remaining_of(val), ..acc }
    } else if key == "IsCharging"@ {
        IoregView { is_charging: eq_ignore_case(val, "Yes"@), ..acc }
    } else if key == "FullyCharged"@ {
        IoregView { fully_charged: eq_ignore_case(val, "Yes"@), ..acc }
    } else {
        acc
    }
}

/// The reading after one line of the report. Lines look like
/// `"FieldName" = value`; other lines change nothing.
pub open spec fn ioreg_line(acc: IoregView, line: Seq<char>) -> IoregView {
    let l = trim_ws(line);
    match find_spec(l, " = "@) {
        None => acc,
        Some(eq) => ioreg_field(
            acc,
            trim_spec(trim_ws(l.subrange(0, eq)), true),
            trim_ws(l.subrange(eq + 3, l.len() as int)),
        ),
    }
}

/// The reading after the lines `ls`, in order; a later line for the same
/// field replaces an earlier one.
pub open spec fn ioreg_lines(ls: Seq<Seq<char>>) -> IoregView
    decreases ls.len(),
{
    if ls.len() == 0 {
        ioreg_start()
    } else {
        ioreg_line(ioreg_lines(ls.drop_last()), ls.last())
    }
}

/// The battery an ioreg report describes: present when it has a
/// CurrentCapacity line.
pub open spec fn ioreg_battery(text: Seq<char>) -> Option<IoregView> {
    let r = ioreg_lines(lines_spec(text));
    if r.saw_charge {
        Some(r)
    } else {
        None
    }
}

fn is_key(v: &Vec<char>, lit: &str) -> (r: bool)
    ensures
        r == (v@ == lit@),
{
    let w = chars_of(lit);
    chars_eq(v, &w)
}

fn yes(val: &Vec<char>) -> (r: bool)
    ensures
        r == eq_ignore_case(val@, "Yes"@),
{
    let y = chars_of("Yes");
    eq_ignore_ascii_case(val, &y)
}

fn apply_ioreg_line(bat: &mut IoregBattery, saw: &mut bool, line: &Vec<char>)
    ensures
        final(bat).view_with(*final(saw)) == ioreg_line(old(bat).view_with(*old(saw)), line@),
{
    let l = trim_chars(line, false);
    let sep = chars_of(" = ");
    proof {
        reveal_strlit(" = ");
    }
    let eq = match find(&l, &sep) {
        None => {
            return;
        },
        Some(eq) => eq,
    };
    let key_part = slice_chars(&l, 0, eq);
    let key = trim_chars(&trim_chars(&key_part, false), true);
    let val_part = slice_chars(&l, eq + 3, l.len());
    let val = trim_chars(&val_part, false);
    if is_key(&key, "CurrentCapacity") {
        bat.charge_text = string_from_chars(&val);
        *saw = true;
    } else if is_key(&key, "MaxCapacity") {
        bat.health_text = Some(string_from_chars(&val));
    } else if is_key(&key, "CycleCount") {
        bat.cycle_count = parse_u32(&val);
    } else if is_key(&key, "Temperature") {
        bat.temp_text = Some(string_from_chars(&val));
    } else if is_key(&key, "Voltage") {
        bat.voltage_text = Some(string_from_chars(&val));
    } else if is_key(&key, "Amperage") {
        bat.amperage_ma = match parse_u64(&val) {
            Some(v) => Some(v as i64 as i32),
            None => None,
        };
    } else if is_key(&key, "TimeRemaining") {
        bat.time_remaining_min = match parse_u32(&val) {
            Some(v) => if 0 < v && v < 60_000 {
                Some(v)
            } else {
                None
            },
            None => None,
        };
    } else if is_key(&key, "IsCharging") {
        bat.is_charging = yes(&val);
    } else if is_key(&key, "FullyCharged") {
        bat.fully_charged = yes(&val);
    }
}

/// Battery fields from `ioreg -rn AppleSmartBattery`. None when the
/// report has no CurrentCapacity line (no battery).
pub fn parse_macos_ioreg_battery(text: &str) -> (r: Option<IoregBattery>)
    ensures
        match ioreg_battery(text@) {
            Some(v) => r matches Some(b) && b.view_with(true) == v,
            None => r is None,
        },
{
    let chars = chars_of(text);
    let lines = lines_of(&chars);
    let n = lines.len();
    let mut bat = IoregBattery {
        charge_text: String::new(),
        health_text: None,
        cycle_count: None,
        temp_text: None,
        voltage_text: None,
        amperage_ma: None,
        time_remaining_min: None,
        is_charging: false,
        fully_charged: false,
    };
    let mut saw = false;
    let ghost ls = lines_spec(chars@);
    let mut k: usize = 0;
    while k < n
        invariant
            n == lines@.len() == ls.len(),
            ls == lines_spec(chars@),
            chars@ == text@,
            forall|j: int| 0 <= j < n ==> #[trigger] lines@[j]@ == ls[j],
            k <= n,
            bat.view_with(saw) == ioreg_lines(ls.take(k as int)),
        decreases n - k,
    {
        apply_ioreg_line(&mut bat, &mut saw, &lines[k]);
        assert(ls.take(k + 1).drop_last() =~= ls.take(k as int));
        k = k + 1;
    }
    assert(ls.take(n as int) =~= ls);
    if saw {
        Some(bat)
    } else {
        None
    }
}

// ───────────────────────── Linux sysfs ─────────────────────────

/// `read_trim`: the file's text without surrounding whitespace, when the
/// file could be read.
pub open spec fn trimmed_file(f: Option<Seq<char>>) -> Option<Seq<char>> {
    match f {
        Some(t) => Some(trim_ws(t)),
        None => None,
    }
}

pub open spec fn opt_chars(v: Option<Vec<char>>) -> Option<Seq<char>> {
    match v {
        Some(c) => Some(c@),
        None => None,
    }
}

fn read_trim(f: &Option<String>) -> (r: Option<Vec<char>>)
    ensures
        opt_chars(r) == trimmed_file(f.deep_view()),
{
    match f {
        Some(t) => {
            let c = chars_of(t.as_str());
            Some(trim_chars(&c, false))
        },
        None => None,
    }
}

fn opt_string(v: &Option<Vec<char>>) -> (r: Option<String>)
    ensures
        r.deep_view() == opt_chars(*v),
{
    match v {
        Some(c) => Some(string_from_chars(c)),
        None => None,
    }
}

/// The files of one `/sys/class/power_supply/BAT*` directory, as read
/// (None when a file could not be read).
pub struct BatteryFiles {
    pub capacity: Option<String>,
    pub status: Option<String>,
    pub cycle_count: Option<String>,
    pub voltage_now: Option<String>,
    pub current_now: Option<String>,
    pub temp: Option<String>,
    pub energy_full_design: Option<String>,
    pub energy_full: Option<String>,
}

/// A battery as sysfs reports it. The `*_text` fields are the trimmed
/// file contents: capacity (%), voltage_now (µV), temp (deci-degrees C),
/// energy_full_design and energy_full (µWh).
#[derive(Debug)]
pub struct SysfsBattery {
    pub charge_text: Option<String>,
    pub is_charging: bool,
    pub fully_charged: bool,
    pub cycle_count: Option<u32>,
    pub voltage_text: Option<String>,
    pub amperage_ma: Option<i32>,
    pub temp_text: Option<String>,
    pub energy_full_design_text: Option<String>,
    pub energy_full_text: Option<String>,
}

/// Rust's integer division, which rounds toward zero.
pub open spec fn div_toward_zero(v: int, d: int) -> int {
    if v >= 0 {
        v / d
    } else {
        -((-v) / d)
    }
}

/// `current_now` (µA) as whole mA: `(v / 1000) as i32`.
pub open spec fn current_ma_of(f: Option<Seq<char>>) -> Option<i32> {
    match trimmed_file(f) {
        Some(t) => match parse_signed(t, i64::MIN as int, i64::MAX as int) {
            Some(v) => Some((div_toward_zero(v, 1000) as i64) as i32),
            None => None,
        },
        None => None,
    }
}

pub open spec fn trimmed_u32(f: Option<Seq<char>>) -> Option<u32> {
    match trimmed_file(f) {
        Some(t) => u32_of(t),
        None => None,
    }
}

/// The status file's text, or "" when it could not be read.
pub open spec fn status_of(f: Option<Seq<char>>) -> Seq<char> {
    match trimmed_file(f) {
        Some(t) => t,
        None => Seq::empty(),
    }
}

pub open spec fn sysfs_battery_matches(b: SysfsBattery, f: BatteryFiles) -> bool {
    &&& b.charge_text.deep_view() == trimmed_file(f.capacity.deep_view())
    &&& b.is_charging == eq_ignore_case(status_of(f.status.deep_view()), "Charging"@)
    &&& b.fully_charged == eq_ignore_case(status_of(f.status.deep_view()), "Full"@)
    &&& b.cycle_count == trimmed_u32(f.cycle_count.deep_view())
    &&& b.voltage_text.deep_view() == trimmed_file(f.voltage_now.deep_view())
    &&& b.amperage_ma == current_ma_of(f.current_now.deep_view())
    &&& b.temp_text.deep_view() == trimmed_file(f.temp.deep_view())
    &&& b.energy_full_design_text.deep_view() == trimmed_file(f.energy_full_design.deep_view())
    &&& b.energy_full_text.deep_view() == trimmed_file(f.energy_full.deep_view())
}

fn current_ma(f: &Option<String>) -> (r: Option<i32>)
    ensures
        r == current_ma_of(f.deep_view()),
{
    let t = match read_trim(f) {
        Some(t) => t,
        None => {
            return None;
        },
    };
    match parse_i64(&t) {
        Some(v) => {
            let q: i64 = if v >= 0 {
                (v as u64 / 1000) as i64
            } else {
                let mag = (-(v as i128)) as u64;
                -((mag / 1000) as i64)
            };
            Some(q as i32)
        },
        None => None,
    }
}

fn trimmed_u32_of(f: &Option<String>) -> (r: Option<u32>)
    ensures
        r == trimmed_u32(f.deep_view()),
{
    match read_trim(f) {
        Some(t) => parse_u32(&t),
        None => None,
    }
}

/// Battery fields from one sysfs battery directory.
pub fn parse_linux_battery(f: &BatteryFiles) -> (b: SysfsBattery)
    ensures
        sysfs_battery_matches(b, *f),
{
    let status = match read_trim(&f.status) {
        Some(s) => s,
        None => Vec::new(),
    };
    let charging = chars_of("Charging");
    let full = chars_of("Full");
    SysfsBattery {
        charge_text: opt_string(&read_trim(&f.capacity)),
        is_charging: eq_ignore_ascii_case(&status, &charging),
        fully_charged: eq_ignore_ascii_case(&status, &full),
        cycle_count: trimmed_u32_of(&f.cycle_count),
        voltage_text: opt_string(&read_trim(&f.voltage_now)),
        amperage_ma: current_ma(&f.current_now),
        temp_text: opt_string(&read_trim(&f.temp)),
        energy_full_design_text: opt_string(&read_trim(&f.energy_full_design)),
        energy_full_text: opt_string(&read_trim(&f.energy_full)),
    }
}

/// One `/sys/class/power_supply/*` entry: its `type` and `online` files
/// and, for batteries, the battery files.
pub struct SupplyFiles {
    pub supply_type: Option<String>,
    pub online: Option<String>,
    pub battery: BatteryFiles,
}

/// What a scan of the power supplies found: the source, the battery
/// (the first one listed wins) and its position in the list.
pub struct SupplyScan {
    pub source: PowerSource,
    pub battery: Option<SysfsBattery>,
    pub battery_index: Option<usize>,
}

pub open spec fn is_battery_type(f: Option<Seq<char>>) -> bool {
    trimmed_file(f) == Some("Battery"@)
}

pub open spec fn is_mains_type(f: Option<Seq<char>>) -> bool {
    trimmed_file(f) == Some("Mains"@) || trimmed_file(f) == Some("UPS"@)
}

/// Whether some mains / UPS supply among the first `k` is online.
pub open spec fn ac_online(s: Seq<SupplyFiles>, k: int) -> bool
    decreases k,
{
    if k <= 0 {
        false
    } else {
        ac_online(s, k - 1) || (is_mains_type(s[k - 1].supply_type.deep_view()) && trimmed_file(
            s[k - 1].online.deep_view(),
        ) == Some("1"@))
    }
}

/// Position of the first battery among the first `k` supplies.
pub open spec fn first_battery(s: Seq<SupplyFiles>, k: int) -> Option<int>
    decreases k,
{
    if k <= 0 {
        None
    } else {
        match first_battery(s, k - 1) {
            Some(i) => Some(i),
            None => if is_battery_type(s[k - 1].supply_type.deep_view()) {
                Some(k - 1)
            } else {
                None
            },
        }
    }
}

/// The power source: AC when a mains / UPS supply is online, else
/// Battery when there is a battery, else Unknown.
pub open spec fn scan_source(s: Seq<SupplyFiles>) -> PowerSource {
    if ac_online(s, s.len() as int) {
        PowerSource::Ac
    } else if first_battery(s, s.len() as int) is Some {
        PowerSource::Battery
    } else {
        PowerSource::Unknown
    }
}

/// Source and battery from the power-supply directories, in listing order.
pub fn scan_linux_supplies(supplies: &Vec<SupplyFiles>) -> (r: SupplyScan)
    ensures
        r.source == scan_source(supplies@),
        r.battery_index == match first_battery(supplies@, supplies@.len() as int) {
            Some(i) => Some(i as usize),
            None => None::<usize>,
        },
        r.battery_index matches Some(i) ==> (i < supplies@.len() && (r.battery matches Some(b)
            && sysfs_battery_matches(b, supplies@[i as int].battery))),
        r.battery_index is None ==> r.battery is None,
{
    let n = supplies.len();
    let mut ac = false;
    let mut battery: Option<SysfsBattery> = None;
    let mut index: Option<usize> = None;
    let battery_word = chars_of("Battery");
    let mains_word = chars_of("Mains");
    let ups_word = chars_of("UPS");
    let one = chars_of("1");
    for k in 0..n
        invariant
            n == supplies@.len(),
            battery_word@ == "Battery"@,
            mains_word@ == "Mains"@,
            ups_word@ == "UPS"@,
            one@ == "1"@,
            ac == ac_online(supplies@, k as int),
            index == match first_battery(supplies@, k as int) {
                Some(i) => Some(i as usize),
                None => None::<usize>,
            },
            index matches Some(i) ==> (i < k && (battery matches Some(b) && sysfs_battery_matches(
                b,
                supplies@[i as int].battery,
            ))),
            index is None ==> battery is None,
    {
        let entry = &supplies[k];
        proof {
            reveal_strlit("Battery");
            reveal_strlit("Mains");
            reveal_strlit("UPS");
            assert("Battery"@.len() != "Mains"@.len());
            assert("Battery"@.len() != "UPS"@.len());
            assert(ac_online(supplies@, k + 1) == (ac_online(supplies@, k as int) || (is_mains_type(supplies@[k as int].supply_type.deep_view()) && trimmed_file(
            supplies@[k as int].online.deep_view(),
        ) == Some("1"@))));
        }
        match read_trim(&entry.supply_type) {
            Some(t) => {
                if chars_eq(&t, &battery_word) {
                    if index.is_none() {
                        battery = Some(parse_linux_battery(&entry.battery));
                        index = Some(k);
                    }
                } else if chars_eq(&t, &mains_word) || chars_eq(&t, &ups_word) {
                    match read_trim(&entry.online) {
                        Some(o) => {
                            if chars_eq(&o, &one) {
                                ac = true;
                            }
                        },
                        None => {},
                    }
                }
            },
            None => {},
        }
    }
    let source = if ac {
        PowerSource::Ac
    } else if index.is_some() {
        PowerSource::Battery
    } else {
        PowerSource::Unknown
    };
    SupplyScan { source, battery, battery_index: index }
}

/// A thermal zone: its name and temperature in milli-degrees C.
#[derive(Debug)]
pub struct ThermalReading {
    pub name: String,
    pub temp_milli: i32,
}

/// The reading of `/sys/class/thermal/<entry>`, for `thermal_zone*`
/// entries only: named by its `type` file (else the entry name), at the
/// temperature its `temp` file gives (0 when unreadable).
pub fn thermal_zone(entry: &str, zone_type: &Option<String>, temp: &Option<String>) -> (r: Option<ThermalReading>)
    ensures
        !starts_with(entry@, "thermal_zone"@) ==> r is None,
        starts_with(entry@, "thermal_zone"@) ==> (r matches Some(z) && z.name@ == match trimmed_file(
            zone_type.deep_view(),
        ) {
            Some(t) => t,
            None => entry@,
        } && z.temp_milli == match trimmed_file(temp.deep_view()) {
            Some(t) => match parse_signed(t, i32::MIN as int, i32::MAX as int) {
                Some(v) => v as i32,
                None => 0,
            },
            None => 0,
        }),
{
    let e = chars_of(entry);
    if !has_prefix(&e, &chars_of("thermal_zone")) {
        return None;
    }
    let name = match read_trim(zone_type) {
        Some(t) => string_from_chars(&t),
        None => string_from_chars(&e),
    };
    let temp_milli = match read_trim(temp) {
        Some(t) => match crate::num::parse_i32(&t) {
            Some(v) => v,
            None => 0,
        },
        None => 0,
    };
    Some(ThermalReading { name, temp_milli })
}

/// A fan: label, speed, and target speed when the platform gives one.
#[derive(Debug)]
pub struct FanTick {
    pub name: String,
    pub rpm: u32,
    pub target_rpm: Option<u32>,
}

pub struct FanView {
    pub name: Seq<char>,
    pub rpm: u32,
    pub target_rpm: Option<u32>,
}

impl View for FanTick {
    type V = FanView;

    open spec fn view(&self) -> FanView {
        FanView { name: self.name@, rpm: self.rpm, target_rpm: self.target_rpm }
    }
}

/// The `fanN_*` files of one hwmon chip; `exists` tells whether
/// `fanN_input` is there at all.
pub struct FanFiles {
    pub exists: bool,
    pub input: Option<String>,
    pub label: Option<String>,
    pub target: Option<String>,
}

/// Fan numbers hwmon is scanned for: fan1 .. fan8.
pub const MAX_FANS: usize = 8;

/// "fanN".
pub open spec fn fan_default_name(n: nat) -> Seq<char> {
    "fan"@ + decimal(n)
}

/// The fans of one chip, from `fan1` on: the scan stops at the first
/// missing `fanN_input` (or after fan8) and skips fans reading 0 rpm.
pub open spec fn chip_fans_spec(f: Seq<FanFiles>, k: int) -> Seq<FanView>
    decreases k,
{
    if k <= 0 {
        Seq::empty()
    } else {
        let prev = chip_fans_spec(f, k - 1);
        if exists|j: int| 0 <= j < k && !(#[trigger] f[j]).exists {
            prev
        } else {
            let rpm = match trimmed_u32(f[k - 1].input.deep_view()) {
                Some(v) => v,
                None => 0,
            };
            if rpm == 0 {
                prev
            } else {
                prev.push(
                    FanView {
                        name: match trimmed_file(f[k - 1].label.deep_view()) {
                            Some(l) => l,
                            None => fan_default_name(k as nat),
                        },
                        rpm,
                        target_rpm: trimmed_u32(f[k - 1].target.deep_view()),
                    },
                )
            }
        }
    }
}

pub open spec fn scan_len(f: Seq<FanFiles>) -> int {
    if f.len() < MAX_FANS {
        f.len() as int
    } else {
        MAX_FANS as int
    }
}

/// The fans a hwmon chip reports, `files[i]` holding the files of fan i+1.
pub fn chip_fans(files: &Vec<FanFiles>) -> (r: Vec<FanTick>)
    ensures
        r@.map_values(|t: FanTick| t@) == chip_fans_spec(files@, scan_len(files@)),
{
    let n = if files.len() < MAX_FANS {
        files.len()
    } else {
        MAX_FANS
    };
    let mut out: Vec<FanTick> = Vec::new();
    let mut k: usize = 0;
    while k < n
        invariant
            n == scan_len(files@),
            n <= files.len(),
            k <= n,
            out@.map_values(|t: FanTick| t@) == chip_fans_spec(files@, k as int),
            forall|j: int| 0 <= j < k ==> (#[trigger] files@[j]).exists,
        decreases n - k,
    {
        let f = &files[k];
        if !f.exists {
            proof {
                let s = files@;
                assert forall|m: int| k < m <= n implies chip_fans_spec(s, m) == chip_fans_spec(s, k as int) by {
                    lemma_fans_stop(s, k as int, m);
                }
                assert(chip_fans_spec(s, n as int) == chip_fans_spec(s, k as int));
            }
            return out;
        }
        let rpm = match trimmed_u32_of(&f.input) {
            Some(v) => v,
            None => 0,
        };
        let ghost before = out@;
        if rpm != 0 {
            let name = match read_trim(&f.label) {
                Some(l) => string_from_chars(&l),
                None => {
                    let mut v = chars_of("fan");
                    push_decimal(&mut v, (k + 1) as u64);
                    string_from_chars(&v)
                },
            };
            let target = trimmed_u32_of(&f.target);
            out.push(FanTick { name, rpm, target_rpm: target });
            assert(out@.map_values(|t: FanTick| t@) =~= before.map_values(|t: FanTick| t@).push(
                out@.last()@,
            ));
        }
        proof {
            assert(!(exists|j: int| 0 <= j < k + 1 && !(#[trigger] files@[j]).exists));
        }
        k = k + 1;
    }
    out
}

proof fn lemma_fans_stop(s: Seq<FanFiles>, k: int, m: int)
    requires
        0 <= k < m,
        k < s.len(),
        !s[k].exists,
    ensures
        chip_fans_spec(s, m) == chip_fans_spec(s, k),
    decreases m - k,
{
    assert(exists|j: int| 0 <= j < m && !(#[trigger] s[j]).exists) by {
        assert(!s[k].exists);
    }
    if m - 1 > k {
        lemma_fans_stop(s, k, m - 1);
    } else {
        assert(m - 1 == k);
    }
}

// ───────────────────────── refresh cadence ─────────────────────────

/// How often battery / thermal data is re-read: every 5 s. Reading it on
/// every tick would spawn three subprocesses per second on macOS.
pub const POWER_REFRESH_NANOS: u128 = 5_000_000_000;

/// Remembers when a value was last sampled and tells when it is stale.
/// Times are nanoseconds on a monotonic clock.
#[derive(Debug, Clone, Copy)]
pub struct RefreshTimer {
    pub period_nanos: u128,
    pub last_sample_at: Option<u128>,
}

/// Whether a sample taken at `last` is stale at `now` (never sampled
/// counts as stale; a clock that went backwards as not elapsed).
pub open spec fn is_stale(period: u128, last: Option<u128>, now: u128) -> bool {
    match last {
        None => true,
        Some(t) => now >= t && now - t >= period,
    }
}

impl RefreshTimer {
    pub fn new(period_nanos: u128) -> (r: RefreshTimer)
        ensures
            r.period_nanos == period_nanos,
            r.last_sample_at is None,
    {
        RefreshTimer { period_nanos, last_sample_at: None }
    }

    /// Whether a fresh sample is due at `now`.
    pub fn stale(&self, now: u128) -> (r: bool)
        ensures
            r == is_stale(self.period_nanos, self.last_sample_at, now),
    {
        match self.last_sample_at {
            None => true,
            Some(t) => now >= t && now - t >= self.period_nanos,
        }
    }

    /// Record a sample taken at `now`.
    pub fn mark(&mut self, now: u128)
        ensures
            final(self).period_nanos == old(self).period_nanos,
            final(self).last_sample_at == Some(now),
    {
        self.last_sample_at = Some(now);
    }
}

/// Caches the last power reading and re-samples at most every
/// `POWER_REFRESH_NANOS`.
pub struct PowerCollector<T> {
    pub timer: RefreshTimer,
    pub cached: T,
}

/// The collector after `sample(now, fresh)`: a due sample with a fresh
/// reading replaces the cache and restarts the window; anything else
/// leaves the collector as it was.
pub open spec fn sampled<T>(c: PowerCollector<T>, now: u128, fresh: Option<T>) -> PowerCollector<T> {
    if is_stale(c.timer.period_nanos, c.timer.last_sample_at, now) && fresh is Some {
        PowerCollector {
            timer: RefreshTimer { period_nanos: c.timer.period_nanos, last_sample_at: Some(now) },
            cached: fresh->0,
        }
    } else {
        c
    }
}

impl<T> PowerCollector<T> {
    /// A collector holding `initial` and due for a sample at once.
    pub fn new(initial: T) -> (r: PowerCollector<T>)
        ensures
            r.timer.period_nanos == POWER_REFRESH_NANOS,
            r.timer.last_sample_at is None,
            r.cached == initial,
    {
        PowerCollector { timer: RefreshTimer::new(POWER_REFRESH_NANOS), cached: initial }
    }

    /// Whether `sample` should take a fresh reading at `now`.
    pub fn due(&self, now: u128) -> (r: bool)
        ensures
            r == is_stale(self.timer.period_nanos, self.timer.last_sample_at, now),
    {
        self.timer.stale(now)
    }

    /// The current reading: `fresh` when a sample is due at `now` (which
    /// then becomes the cached one), else the cached reading. The caller
    /// computes `fresh` only when `due(now)` says so.
    pub fn sample(&mut self, now: u128, fresh: Option<T>) -> (r: &T)
        ensures
            *final(self) == sampled(*old(self), now, fresh),
            *r == final(self).cached,
    {
        if self.timer.stale(now) {
            match fresh {
                Some(v) => {
                    self.cached = v;
                    self.timer.mark(now);
                },
                None => {},
            }
        }
        &self.cached
    }
}

/// After a sample at `t`, no new sample is due before `t + period`, and
/// one is due from then on.
pub proof fn lemma_refresh_window(period: u128, t: u128, now: u128)
    requires
        now >= t,
    ensures
        is_stale(period, Some(t), now) <==> now - t >= period,
        is_stale(period, None, now),
{
}

/// A refresh at `t` caches its reading, and every call before `t` plus the
/// refresh period returns that reading and changes nothing, whatever
/// reading it is offered; so two calls less than a period apart after a
/// refresh return the same value.
pub proof fn lemma_cache_holds_between_refreshes<T>(
    c: PowerCollector<T>,
    t: u128,
    fresh: T,
    now: u128,
    offered: Option<T>,
)
    requires
        is_stale(c.timer.period_nanos, c.timer.last_sample_at, t),
        t <= now < t + c.timer.period_nanos,
    ensures
        sampled(c, t, Some(fresh)).cached == fresh,
        sampled(sampled(c, t, Some(fresh)), now, offered) == sampled(c, t, Some(fresh)),
{
}

proof fn lemma_scan_prefix(s: Seq<SupplyFiles>, k: int)
    requires
        0 <= k <= s.len(),
    ensures
        ac_online(s, k) <==> exists|i: int|
            0 <= i < k && is_mains_type(#[trigger] s[i].supply_type.deep_view()) && trimmed_file(
                s[i].online.deep_view(),
            ) == Some("1"@),
        first_battery(s, k) matches Some(i) ==> 0 <= i < k && is_battery_type(
            s[i].supply_type.deep_view(),
        ) && forall|j: int| 0 <= j < i ==> !is_battery_type(#[trigger] s[j].supply_type.deep_view()),
        first_battery(s, k) is None ==> forall|j: int|
            0 <= j < k ==> !is_battery_type(#[trigger] s[j].supply_type.deep_view()),
    decreases k,
{
    if k > 0 {
        lemma_scan_prefix(s, k - 1);
        if ac_online(s, k) && !ac_online(s, k - 1) {
            assert(is_mains_type(s[k - 1].supply_type.deep_view()));
        }
    }
}

/// The power source of a supply scan: AC exactly when some supply whose
/// type file reads "Mains" or "UPS" has an online file reading "1";
/// otherwise Battery exactly when some supply's type file reads "Battery";
/// otherwise Unknown. The battery taken is the first supply whose type
/// reads "Battery", and there is one whenever such a supply is listed.
pub proof fn lemma_supply_scan(s: Seq<SupplyFiles>)
    ensures
        (scan_source(s) == PowerSource::Ac) <==> exists|i: int|
            0 <= i < s.len() && (trimmed_file(#[trigger] s[i].supply_type.deep_view()) == Some(
                "Mains"@,
            ) || trimmed_file(s[i].supply_type.deep_view()) == Some("UPS"@)) && trimmed_file(
                s[i].online.deep_view(),
            ) == Some("1"@),
        (scan_source(s) == PowerSource::Battery) <==> (scan_source(s) != PowerSource::Ac && exists|
            i: int,
        | 0 <= i < s.len() && trimmed_file(#[trigger] s[i].supply_type.deep_view()) == Some(
            "Battery"@,
        )),
        first_battery(s, s.len() as int) matches Some(i) ==> 0 <= i < s.len() && trimmed_file(
            s[i].supply_type.deep_view(),
        ) == Some("Battery"@) && forall|j: int|
            0 <= j < i ==> trimmed_file(#[trigger] s[j].supply_type.deep_view()) != Some(
                "Battery"@,
            ),
        (first_battery(s, s.len() as int) is None) <==> forall|j: int|
            0 <= j < s.len() ==> trimmed_file(#[trigger] s[j].supply_type.deep_view()) != Some(
                "Battery"@,
            ),
{
    lemma_scan_prefix(s, s.len() as int);
    if first_battery(s, s.len() as int) is Some {
        let i = first_battery(s, s.len() as int)->0;
        assert(trimmed_file(s[i].supply_type.deep_view()) == Some("Battery"@));
    }
}

/// What one `key = value` field of an ioreg report does to the reading:
/// IsCharging and FullyCharged are true exactly when their value is "yes"
/// in any ASCII case (so "No" makes them false), CurrentCapacity records
/// the charge and marks the battery present, and a field changes no flag
/// it is not named for.
pub proof fn lemma_ioreg_field_flags(acc: IoregView, key: Seq<char>, val: Seq<char>)
    ensures
        key == "FullyCharged"@ ==> (ioreg_field(acc, key, val).fully_charged <==> ascii_lower(val)
            == seq!['y', 'e', 's']),
        key == "IsCharging"@ ==> (ioreg_field(acc, key, val).is_charging <==> ascii_lower(val)
            == seq!['y', 'e', 's']),
        key != "FullyCharged"@ ==> ioreg_field(acc, key, val).fully_charged == acc.fully_charged,
        key != "IsCharging"@ ==> ioreg_field(acc, key, val).is_charging == acc.is_charging,
        key == "CurrentCapacity"@ ==> ioreg_field(acc, key, val).saw_charge
            && ioreg_field(acc, key, val).charge_text == val,
        key != "CurrentCapacity"@ ==> ioreg_field(acc, key, val).saw_charge == acc.saw_charge
            && ioreg_field(acc, key, val).charge_text == acc.charge_text,
{
    reveal_strlit("Yes");
    assert(ascii_lower("Yes"@) =~= seq!['y', 'e', 's']);
    // The field names differ in length or in their first character.
    reveal_strlit("CurrentCapacity");
    reveal_strlit("MaxCapacity");
    reveal_strlit("CycleCount");
    reveal_strlit("Temperature");
    reveal_strlit("Voltage");
    reveal_strlit("Amperage");
    reveal_strlit("TimeRemaining");
    reveal_strlit("IsCharging");
    reveal_strlit("FullyCharged");
    assert("CurrentCapacity"@[0] == 'C' && "CurrentCapacity"@.len() == 15);
    assert("MaxCapacity"@[0] == 'M' && "MaxCapacity"@.len() == 11);
    assert("CycleCount"@[0] == 'C' && "CycleCount"@.len() == 10);
    assert("Temperature"@[0] == 'T' && "Temperature"@.len() == 11);
    assert("Voltage"@[0] == 'V' && "Voltage"@.len() == 7);
    assert("Amperage"@[0] == 'A' && "Amperage"@.len() == 8);
    assert("TimeRemaining"@[0] == 'T' && "TimeRemaining"@.len() == 13);
    assert("IsCharging"@[0] == 'I' && "IsCharging"@.len() == 10);
    assert("FullyCharged"@[0] == 'F' && "FullyCharged"@.len() == 12);
}

proof fn lemma_find_first(hay: Seq<char>, needle: Seq<char>, from: int, p: int)
    requires
        0 <= from <= p,
        occurs_at(hay, needle, p),
        forall|j: int| from <= j < p ==> !occurs_at(hay, needle, j),
    ensures
        find_from(hay, needle, from) == Some(p),
    decreases p - from,
{
    if from < p {
        lemma_find_first(hay, needle, from + 1, p);
    }
}

proof fn lemma_trim_keeps(s: Seq<char>, quotes: bool)
    requires
        s.len() > 0,
        !trimmed(s[0], quotes),
        !trimmed(s.last(), quotes),
    ensures
        trim_spec(s, quotes) == s,
{
}

proof fn lemma_trim_one_quote(k: Seq<char>)
    requires
        k.len() > 0,
        k[0] != '"',
        k.last() != '"',
    ensures
        trim_spec(seq!['"'] + k + seq!['"'], true) == k,
{
    let q = seq!['"'] + k + seq!['"'];
    assert(q.drop_first() =~= k + seq!['"']);
    let s1 = q.drop_first();
    assert(trim_start_spec(s1, true) == s1);
    assert(trim_start_spec(q, true) == s1);
    assert(s1.drop_last() =~= k);
    assert(trim_end_spec(k, true) == k);
}

/// A report line `"Key" = value`, for a key without spaces or quotes at
/// its ends and a value without surrounding whitespace, sets exactly the
/// field `Key` to `value`: the key is what stands between the quotes and
/// the value what follows the first " = ".
pub proof fn lemma_ioreg_line_sets_field(acc: IoregView, key: Seq<char>, val: Seq<char>)
    requires
        key.len() > 0,
        key[0] != '"',
        key.last() != '"',
        forall|i: int| 0 <= i < key.len() ==> #[trigger] key[i] != ' ',
        val.len() > 0,
        !is_ws(val[0]),
        !is_ws(val.last()),
    ensures
        ioreg_line(acc, seq!['"'] + key + seq!['"', ' ', '=', ' '] + val) == ioreg_field(
            acc,
            key,
            val,
        ),
{
    reveal_strlit(" = ");
    let sep = seq![' ', '=', ' '];
    assert(" = "@ =~= sep);
    let quoted = seq!['"'] + key + seq!['"'];
    let line = quoted + sep + val;
    assert(seq!['"'] + key + seq!['"', ' ', '=', ' '] + val =~= line);
    let n: int = key.len() as int + 2;
    assert(line[0] == '"');
    assert(line.last() == val.last());
    lemma_trim_keeps(line, false);
    assert(trim_ws(line) == line);
    assert(line.subrange(n, n + 3) =~= sep);
    assert forall|j: int| 0 <= j < n implies !occurs_at(line, sep, j) by {
        if 0 < j < n - 1 {
            assert(line[j] == key[j - 1]);
        } else {
            assert(line[j] == '"');
        }
        if occurs_at(line, sep, j) {
            assert(line.subrange(j, j + 3)[0] == line[j]);
        }
    }
    lemma_find_first(line, sep, 0, n);
    assert(line.subrange(0, n) =~= quoted);
    lemma_trim_keeps(quoted, false);
    lemma_trim_one_quote(key);
    assert(line.subrange(n + 3, line.len() as int) =~= val);
    lemma_trim_keeps(val, false);
}

/// A Linux battery reads its flags from the status file, ignoring ASCII
/// case and surrounding whitespace: charging exactly when it says
/// "Charging", fully charged exactly when it says "Full"; an unreadable
/// status means neither.
pub proof fn lemma_sysfs_battery_flags(b: SysfsBattery, f: BatteryFiles)
    requires
        sysfs_battery_matches(b, f),
    ensures
        b.is_charging <==> (f.status.deep_view() matches Some(t) && ascii_lower(trim_ws(t))
            == seq!['c', 'h', 'a', 'r', 'g', 'i', 'n', 'g']),
        b.fully_charged <==> (f.status.deep_view() matches Some(t) && ascii_lower(trim_ws(t))
            == seq!['f', 'u', 'l', 'l']),
{
    reveal_strlit("Charging");
    reveal_strlit("Full");
    assert(ascii_lower("Charging"@) =~= seq!['c', 'h', 'a', 'r', 'g', 'i', 'n', 'g']);
    assert(ascii_lower("Full"@) =~= seq!['f', 'u', 'l', 'l']);
    let e = Seq::<char>::empty();
    assert(ascii_lower(e) =~= e);
}

/// An ioreg report is read line by line in order, a later line for a
/// field replacing an earlier one; with no lines nothing is known and no
/// battery is reported, and a battery is reported exactly when some line
/// set its charge.
pub proof fn lemma_ioreg_lines_in_order(ls: Seq<Seq<char>>, l: Seq<char>, text: Seq<char>)
    ensures
        ioreg_lines(ls.push(l)) == ioreg_line(ioreg_lines(ls), l),
        !ioreg_lines(Seq::empty()).saw_charge,
        !ioreg_lines(Seq::empty()).is_charging,
        !ioreg_lines(Seq::empty()).fully_charged,
        ioreg_lines(Seq::empty()).cycle_count is None,
        ioreg_lines(Seq::empty()).amperage_ma is None,
        ioreg_lines(Seq::empty()).time_remaining_min is None,
        ioreg_battery(text) is Some <==> ioreg_lines(lines_spec(text)).saw_charge,
        ioreg_battery(text) matches Some(v) ==> v == ioreg_lines(lines_spec(text)),
{
    assert(ls.push(l).drop_last() =~= ls);
}

/// What the numeric fields of an ioreg report set: CycleCount its decimal
/// value when it fits in 32 bits; TimeRemaining its value only when it is
/// between 1 and 59 999 minutes; Amperage the low 32 bits of its unsigned
/// 64-bit value, read as signed (so 2^64 - 483 gives -483); MaxCapacity,
/// Temperature and Voltage their text. Each leaves the other fields alone.
pub proof fn lemma_ioreg_field_values(acc: IoregView, key: Seq<char>, val: Seq<char>)
    ensures
        key == "CycleCount"@ ==> ioreg_field(acc, key, val).cycle_count == if parse_unsigned(
            val,
            u32::MAX as nat,
        ) is Some {
            Some(parse_unsigned(val, u32::MAX as nat)->0 as u32)
        } else {
            None
        },
        key != "CycleCount"@ ==> ioreg_field(acc, key, val).cycle_count == acc.cycle_count,
        key == "TimeRemaining"@ ==> ioreg_field(acc, key, val).time_remaining_min == if (
        parse_unsigned(val, u32::MAX as nat) matches Some(n) && 0 < n < 60_000) {
            Some(parse_unsigned(val, u32::MAX as nat)->0 as u32)
        } else {
            None
        },
        key != "TimeRemaining"@ ==> ioreg_field(acc, key, val).time_remaining_min
            == acc.time_remaining_min,
        key == "Amperage"@ ==> (ioreg_field(acc, key, val).amperage_ma is Some <==> parse_unsigned(
            val,
            u64::MAX as nat,
        ) is Some),
        key == "Amperage"@ ==> (ioreg_field(acc, key, val).amperage_ma matches Some(a) ==> (a
            as u32) as nat == parse_unsigned(val, u64::MAX as nat)->0 % 0x1_0000_0000),
        key != "Amperage"@ ==> ioreg_field(acc, key, val).amperage_ma == acc.amperage_ma,
        key == "MaxCapacity"@ ==> ioreg_field(acc, key, val).health_text == Some(val),
        key != "MaxCapacity"@ ==> ioreg_field(acc, key, val).health_text == acc.health_text,
        key == "Temperature"@ ==> ioreg_field(acc, key, val).temp_text == Some(val),
        key != "Temperature"@ ==> ioreg_field(acc, key, val).temp_text == acc.temp_text,
        key == "Voltage"@ ==> ioreg_field(acc, key, val).voltage_text == Some(val),
        key != "Voltage"@ ==> ioreg_field(acc, key, val).voltage_text == acc.voltage_text,
{
    reveal_strlit("CurrentCapacity");
    reveal_strlit("MaxCapacity");
    reveal_strlit("CycleCount");
    reveal_strlit("Temperature");
    reveal_strlit("Voltage");
    reveal_strlit("Amperage");
    reveal_strlit("TimeRemaining");
    reveal_strlit("IsCharging");
    reveal_strlit("FullyCharged");
    assert("CurrentCapacity"@[0] == 'C' && "CurrentCapacity"@.len() == 15);
    assert("MaxCapacity"@[0] == 'M' && "MaxCapacity"@.len() == 11);
    assert("CycleCount"@[0] == 'C' && "CycleCount"@.len() == 10);
    assert("Temperature"@[0] == 'T' && "Temperature"@.len() == 11);
    assert("Voltage"@[0] == 'V' && "Voltage"@.len() == 7);
    assert("Amperage"@[0] == 'A' && "Amperage"@.len() == 8);
    assert("TimeRemaining"@[0] == 'T' && "TimeRemaining"@.len() == 13);
    assert("IsCharging"@[0] == 'I' && "IsCharging"@.len() == 10);
    assert("FullyCharged"@[0] == 'F' && "FullyCharged"@.len() == 12);
    if key == "Amperage"@ {
        if parse_unsigned(val, u64::MAX as nat) is Some {
            let n = parse_unsigned(val, u64::MAX as nat)->0;
            lemma_low_bits(n);
        }
    }
}

proof fn lemma_low_bits(n: nat)
    requires
        n <= u64::MAX,
    ensures
        (((n as u64) as i64) as i32) as u32 as nat == n % 0x1_0000_0000,
{
    let x = n as u64;
    assert((((x as i64) as i32) as u32) == (x as u32)) by (bit_vector);
    assert((x as u32) as nat == (x as nat) % 0x1_0000_0000) by (bit_vector);
}

/// A `pmset -g batt` line "Now drawing from '<label>'..." names AC when the
/// label begins with "AC", Battery when it begins with "Battery", and no
/// source otherwise.
pub proof fn lemma_pmset_line_source(label: Seq<char>, tail: Seq<char>)
    requires
        forall|i: int| 0 <= i < label.len() ==> #[trigger] label[i] != '\'',
    ensures
        line_source("Now drawing from '"@ + label + seq!['\''] + tail) == if label.len() >= 2
            && label[0] == 'A' && label[1] == 'C' {
            Some(PowerSource::Ac)
        } else if label.len() >= 7 && label.subrange(0, 7) == seq![
            'B',
            'a',
            't',
            't',
            'e',
            'r',
            'y',
        ] {
            Some(PowerSource::Battery)
        } else {
            None
        },
{
    reveal_strlit("Now drawing from '");
    reveal_strlit("drawing from '");
    reveal_strlit("'");
    reveal_strlit("AC");
    reveal_strlit("Battery");
    let pat = "drawing from '"@;
    let head = "Now drawing from '"@;
    let line = head + label + seq!['\''] + tail;
    assert(line.subrange(4, 18) =~= pat);
    assert forall|j: int| 0 <= j < 4 implies !occurs_at(line, pat, j) by {
        if occurs_at(line, pat, j) {
            assert(line.subrange(j, j + 14)[0] == line[j]);
            assert(line[j] != 'd');
        }
    }
    lemma_find_first(line, pat, 0, 4);
    let rest = line.subrange(18, line.len() as int);
    assert(rest =~= label + seq!['\''] + tail);
    let q = "'"@;
    assert(q =~= seq!['\'']);
    assert(rest.subrange(label.len() as int, label.len() as int + 1) =~= q);
    assert forall|j: int| 0 <= j < label.len() implies !occurs_at(rest, q, j) by {
        if occurs_at(rest, q, j) {
            assert(rest.subrange(j, j + 1)[0] == rest[j]);
            assert(rest[j] == label[j]);
        }
    }
    lemma_find_first(rest, q, 0, label.len() as int);
    assert(rest.subrange(0, label.len() as int) =~= label);
    assert("AC"@ =~= seq!['A', 'C']);
    assert("Battery"@ =~= seq!['B', 'a', 't', 't', 'e', 'r', 'y']);
    assert(find_spec(line, pat) == Some(4int));
    assert(find_spec(rest, q) == Some(label.len() as int));
    if label.len() >= 2 {
        assert(label.subrange(0, 2) =~= seq![label[0], label[1]]);
        if label[0] == 'A' && label[1] == 'C' {
            assert(starts_with(label, "AC"@));
        } else {
            assert(!starts_with(label, "AC"@));
        }
    }
}

/// A `pmset -g therm` line "CPU_Speed_Limit <gap>= <value>" reports the
/// value read as a 32-bit unsigned decimal (None when it is not one),
/// whatever the spacing before the "=". A report with no lines means no
/// throttling: 100.
pub proof fn lemma_pmset_speed_limit(gap: Seq<char>, val: Seq<char>)
    requires
        forall|i: int| 0 <= i < gap.len() ==> #[trigger] gap[i] != '=',
        val.len() > 0,
        !is_ws(val.last()),
    ensures
        line_speed_limit("CPU_Speed_Limit"@ + gap + seq!['='] + val) == if parse_unsigned(
            trim_ws(val),
            u32::MAX as nat,
        ) is Some {
            Some(parse_unsigned(trim_ws(val), u32::MAX as nat)->0 as u32)
        } else {
            None
        },
        throttle_from(Seq::empty(), 0) == 100,
{
    reveal_strlit("CPU_Speed_Limit");
    reveal_strlit("=");
    let key = "CPU_Speed_Limit"@;
    let eqs = "="@;
    assert(eqs =~= seq!['=']);
    let line = key + gap + seq!['='] + val;
    assert(line[0] == 'C');
    assert(line.last() == val.last());
    lemma_trim_keeps(line, false);
    assert(line.subrange(0, 15) =~= key);
    let rest = line.subrange(15, line.len() as int);
    assert(rest =~= gap + seq!['='] + val);
    assert(rest.subrange(gap.len() as int, gap.len() as int + 1) =~= eqs);
    assert forall|j: int| 0 <= j < gap.len() implies !occurs_at(rest, eqs, j) by {
        if occurs_at(rest, eqs, j) {
            assert(rest.subrange(j, j + 1)[0] == rest[j]);
            assert(rest[j] == gap[j]);
        }
    }
    lemma_find_first(rest, eqs, 0, gap.len() as int);
    assert(find_spec(rest, eqs) == Some(gap.len() as int));
    assert(rest.subrange(gap.len() as int + 1, rest.len() as int) =~= val);
}

proof fn lemma_chip_fans_prefix(f: Seq<FanFiles>, k: int)
    requires
        0 <= k <= f.len(),
    ensures
        chip_fans_spec(f, k).len() <= k,
        forall|i: int| 0 <= i < chip_fans_spec(f, k).len() ==> (#[trigger] chip_fans_spec(f, k)[i]).rpm > 0,
        k > 0 && !f[0].exists ==> chip_fans_spec(f, k).len() == 0,
    decreases k,
{
    if k > 0 {
        lemma_chip_fans_prefix(f, k - 1);
    }
}

/// A hwmon chip yields at most eight fans, each spinning (rpm above 0),
/// and none at all when its first fan input is missing.
pub proof fn lemma_chip_fans_spinning(f: Seq<FanFiles>)
    ensures
        chip_fans_spec(f, scan_len(f)).len() <= MAX_FANS,
        forall|i: int|
            0 <= i < chip_fans_spec(f, scan_len(f)).len() ==> (#[trigger] chip_fans_spec(
                f,
                scan_len(f),
            )[i]).rpm > 0,
        f.len() > 0 && !f[0].exists ==> chip_fans_spec(f, scan_len(f)).len() == 0,
{
    lemma_chip_fans_prefix(f, scan_len(f));
}

} // verus!
