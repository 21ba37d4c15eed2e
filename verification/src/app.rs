//! Tabs, process-sort modes and the key-handling state machine of the
//! terminal UI. The event loop, sampling and drawing belong to the
//! binary; it asks this module what each key and each tick does.

use vstd::prelude::*;

use crate::settings::{tab_names, TAB_COUNT};
use crate::text::{chars_eq, chars_of, to_ascii_lower, ascii_lower};

verus! {

/// The tabs of the UI, in tab-bar order.
#[derive(Debug, Clone, Copy, PartialEq, Eq, Structural)]
pub enum TabId {
    Overview,
    Cpu,
    Memory,
    Disks,
    Fs,
    Procs,
    Gpu,
    Power,
    Services,
    Net,
    Timeline,
    Insights,
}

/// Position of each tab in the tab bar.
pub open spec fn tab_index(t: TabId) -> int {
    match t {
        TabId::Overview => 0,
        TabId::Cpu => 1,
        TabId::Memory => 2,
        TabId::Disks => 3,
        TabId::Fs => 4,
        TabId::Procs => 5,
        TabId::Gpu => 6,
        TabId::Power => 7,
        TabId::Services => 8,
        TabId::Net => 9,
        TabId::Timeline => 10,
        TabId::Insights => 11,
    }
}

/// `ALL_TABS`: every tab, in tab-bar order.
pub open spec fn all_tabs() -> Seq<TabId> {
    seq![
        TabId::Overview,
        TabId::Cpu,
        TabId::Memory,
        TabId::Disks,
        TabId::Fs,
        TabId::Procs,
        TabId::Gpu,
        TabId::Power,
        TabId::Services,
        TabId::Net,
        TabId::Timeline,
        TabId::Insights,
    ]
}

/// Tab number `i` of the tab bar.
pub fn tab_at(i: usize) -> (t: TabId)
    requires
        i < TAB_COUNT,
    ensures
        t == all_tabs()[i as int],
        tab_index(t) == i,
{
    match i {
        0 => TabId::Overview,
        1 => TabId::Cpu,
        2 => TabId::Memory,
        3 => TabId::Disks,
        4 => TabId::Fs,
        5 => TabId::Procs,
        6 => TabId::Gpu,
        7 => TabId::Power,
        8 => TabId::Services,
        9 => TabId::Net,
        10 => TabId::Timeline,
        _ => TabId::Insights,
    }
}

/// Position of `t` in the tab bar (the search over `ALL_TABS`).
pub fn position_of_tab(t: TabId) -> (i: usize)
    ensures
        i == tab_index(t),
        i < TAB_COUNT,
        all_tabs()[i as int] == t,
{
    match t {
        TabId::Overview => 0,
        TabId::Cpu => 1,
        TabId::Memory => 2,
        TabId::Disks => 3,
        TabId::Fs => 4,
        TabId::Procs => 5,
        TabId::Gpu => 6,
        TabId::Power => 7,
        TabId::Services => 8,
        TabId::Net => 9,
        TabId::Timeline => 10,
        TabId::Insights => 11,
    }
}

pub open spec fn glyph_of(t: TabId) -> Seq<char> {
    match t {
        TabId::Overview => "1"@,
        TabId::Cpu => "2"@,
        TabId::Memory => "3"@,
        TabId::Disks => "4"@,
        TabId::Fs => "5"@,
        TabId::Procs => "6"@,
        TabId::Gpu => "7"@,
        TabId::Power => "8"@,
        TabId::Services => "9"@,
        TabId::Net => "0"@,
        TabId::Timeline => "-"@,
        TabId::Insights => "+"@,
    }
}

pub open spec fn title_of(t: TabId) -> Seq<char> {
    match t {
        TabId::Overview => "Overview"@,
        TabId::Cpu => "CPU"@,
        TabId::Memory => "Memory"@,
        TabId::Disks => "Disks"@,
        TabId::Fs => "FS"@,
        TabId::Procs => "Procs"@,
        TabId::Gpu => "GPU"@,
        TabId::Power => "Power"@,
        TabId::Services => "Services"@,
        TabId::Net => "Net"@,
        TabId::Timeline => "Timeline"@,
        TabId::Insights => "Insights"@,
    }
}

/// The tab a (lowercased) name or hotkey glyph stands for.
pub open spec fn tab_named(s: Seq<char>) -> Option<TabId> {
    if s == "overview"@ || s == "1"@ {
        Some(TabId::Overview)
    } else if s == "cpu"@ || s == "2"@ {
        Some(TabId::Cpu)
    } else if s == "memory"@ || s == "mem"@ || s == "3"@ {
        Some(TabId::Memory)
    } else if s == "disks"@ || s == "disk"@ || s == "4"@ {
        Some(TabId::Disks)
    } else if s == "fs"@ || s == "filesystems"@ || s == "5"@ {
        Some(TabId::Fs)
    } else if s == "procs"@ || s == "processes"@ || s == "6"@ {
        Some(TabId::Procs)
    } else if s == "gpu"@ || s == "7"@ {
        Some(TabId::Gpu)
    } else if s == "power"@ || s == "8"@ {
        Some(TabId::Power)
    } else if s == "services"@ || s == "9"@ {
        Some(TabId::Services)
    } else if s == "net"@ || s == "network"@ || s == "0"@ {
        Some(TabId::Net)
    } else if s == "timeline"@ || s == "-"@ {
        Some(TabId::Timeline)
    } else if s == "insights"@ || s == "+"@ {
        Some(TabId::Insights)
    } else {
        None
    }
}

/// Whether `v` spells the literal `lit`.
fn is_word(v: &Vec<char>, lit: &str) -> (r: bool)
    ensures
        r == (v@ == lit@),
{
    let w = chars_of(lit);
    chars_eq(v, &w)
}

impl TabId {
    /// The hotkey shown next to the tab in the tab bar.
    pub fn glyph(&self) -> (r: &'static str)
        ensures
            r@ == glyph_of(*self),
    {
        match self {
            TabId::Overview => "1",
            TabId::Cpu => "2",
            TabId::Memory => "3",
            TabId::Disks => "4",
            TabId::Fs => "5",
            TabId::Procs => "6",
            TabId::Gpu => "7",
            TabId::Power => "8",
            TabId::Services => "9",
            TabId::Net => "0",
            TabId::Timeline => "-",
            TabId::Insights => "+",
        }
    }

    /// The tab's title in the tab bar.
    pub fn title(&self) -> (r: &'static str)
        ensures
            r@ == title_of(*self),
    {
        match self {
            TabId::Overview => "Overview",
            TabId::Cpu => "CPU",
            TabId::Memory => "Memory",
            TabId::Disks => "Disks",
            TabId::Fs => "FS",
            TabId::Procs => "Procs",
            TabId::Gpu => "GPU",
            TabId::Power => "Power",
            TabId::Services => "Services",
            TabId::Net => "Net",
            TabId::Timeline => "Timeline",
            TabId::Insights => "Insights",
        }
    }

    /// Tab for a name, alias or hotkey glyph, ignoring ASCII case.
    pub fn from_str_loose(s: &str) -> (r: Option<TabId>)
        ensures
            r == tab_named(ascii_lower(s@)),
    {
        let raw = chars_of(s);
        let l = to_ascii_lower(&raw);
        if is_word(&l, "overview") || is_word(&l, "1") {
            Some(TabId::Overview)
        } else if is_word(&l, "cpu") || is_word(&l, "2") {
            Some(TabId::Cpu)
        } else if is_word(&l, "memory") || is_word(&l, "mem") || is_word(&l, "3") {
            Some(TabId::Memory)
        } else if is_word(&l, "disks") || is_word(&l, "disk") || is_word(&l, "4") {
            Some(TabId::Disks)
        } else if is_word(&l, "fs") || is_word(&l, "filesystems") || is_word(&l, "5") {
            Some(TabId::Fs)
        } else if is_word(&l, "procs") || is_word(&l, "processes") || is_word(&l, "6") {
            Some(TabId::Procs)
        } else if is_word(&l, "gpu") || is_word(&l, "7") {
            Some(TabId::Gpu)
        } else if is_word(&l, "power") || is_word(&l, "8") {
            Some(TabId::Power)
        } else if is_word(&l, "services") || is_word(&l, "9") {
            Some(TabId::Services)
        } else if is_word(&l, "net") || is_word(&l, "network") || is_word(&l, "0") {
            Some(TabId::Net)
        } else if is_word(&l, "timeline") || is_word(&l, "-") {
            Some(TabId::Timeline)
        } else if is_word(&l, "insights") || is_word(&l, "+") {
            Some(TabId::Insights)
        } else {
            None
        }
    }
}

pub open spec fn next_tab_spec(t: TabId) -> TabId {
    all_tabs()[(tab_index(t) + 1) % 12]
}

pub open spec fn prev_tab_spec(t: TabId) -> TabId {
    all_tabs()[(tab_index(t) + 12 - 1) % 12]
}

/// The tab after `t` in the tab bar, wrapping around (Tab key).
pub fn next_tab(t: TabId) -> (r: TabId)
    ensures
        r == next_tab_spec(t),
{
    let i = position_of_tab(t);
    tab_at((i + 1) % TAB_COUNT)
}

/// The tab before `t` in the tab bar, wrapping around (BackTab key).
pub fn prev_tab(t: TabId) -> (r: TabId)
    ensures
        r == prev_tab_spec(t),
{
    let i = position_of_tab(t);
    tab_at((i + TAB_COUNT - 1) % TAB_COUNT)
}

/// Sort order of the process table.
#[derive(Debug, Clone, Copy, PartialEq, Eq, Structural)]
pub enum ProcSort {
    Cpu,
    Rss,
    Io,
    Start,
    Name,
}

/// `ProcSort::ALL`: the sort modes in the order `s` cycles them.
pub open spec fn all_sorts() -> Seq<ProcSort> {
    seq![ProcSort::Cpu, ProcSort::Rss, ProcSort::Io, ProcSort::Start, ProcSort::Name]
}

pub open spec fn sort_index(s: ProcSort) -> int {
    match s {
        ProcSort::Cpu => 0,
        ProcSort::Rss => 1,
        ProcSort::Io => 2,
        ProcSort::Start => 3,
        ProcSort::Name => 4,
    }
}

pub open spec fn sort_label(s: ProcSort) -> Seq<char> {
    match s {
        ProcSort::Cpu => "cpu"@,
        ProcSort::Rss => "rss"@,
        ProcSort::Io => "io"@,
        ProcSort::Start => "start"@,
        ProcSort::Name => "name"@,
    }
}

pub open spec fn next_sort_spec(s: ProcSort) -> ProcSort {
    all_sorts()[(sort_index(s) + 1) % 5]
}

/// Number of sort modes.
pub const SORT_COUNT: usize = 5;

impl ProcSort {
    /// Sort mode number `i` of `ProcSort::ALL`.
    pub fn at(i: usize) -> (s: ProcSort)
        requires
            i < SORT_COUNT,
        ensures
            s == all_sorts()[i as int],
    {
        match i {
            0 => ProcSort::Cpu,
            1 => ProcSort::Rss,
            2 => ProcSort::Io,
            3 => ProcSort::Start,
            _ => ProcSort::Name,
        }
    }

    /// The label shown in the sort strip.
    pub fn label(&self) -> (r: &'static str)
        ensures
            r@ == sort_label(*self),
    {
        match self {
            ProcSort::Cpu => "cpu",
            ProcSort::Rss => "rss",
            ProcSort::Io => "io",
            ProcSort::Start => "start",
            ProcSort::Name => "name",
        }
    }

    fn position(self) -> (i: usize)
        ensures
            i == sort_index(self),
            i < SORT_COUNT,
    {
        match self {
            ProcSort::Cpu => 0,
            ProcSort::Rss => 1,
            ProcSort::Io => 2,
            ProcSort::Start => 3,
            ProcSort::Name => 4,
        }
    }

    /// The next sort mode, wrapping around.
    pub fn next(self) -> (r: ProcSort)
        ensures
            r == next_sort_spec(self),
    {
        let i = self.position();
        ProcSort::at((i + 1) % SORT_COUNT)
    }
}

/// Command-line options of a run.
pub struct Options {
    pub tick_ms: u64,
    pub start_tab: Option<String>,
}

/// The tab a run opens on: the named one, else Overview.
pub fn start_tab(opts: &Options) -> (t: TabId)
    ensures
        t == match opts.start_tab {
            Some(s) => match tab_named(ascii_lower(s@)) {
                Some(x) => x,
                None => TabId::Overview,
            },
            None => TabId::Overview,
        },
{
    match &opts.start_tab {
        Some(s) => match TabId::from_str_loose(s.as_str()) {
            Some(t) => t,
            None => TabId::Overview,
        },
        None => TabId::Overview,
    }
}

/// Shortest tick the loop runs at, in milliseconds.
pub const MIN_TICK_MS: u64 = 100;

/// Shortest wait for input between frames, in nanoseconds (33 ms).
pub const MIN_POLL_NANOS: u128 = 33_000_000;

/// The tick interval of a run: the requested one, at least 100 ms.
pub fn tick_interval_ms(opts: &Options) -> (ms: u64)
    ensures
        ms == if opts.tick_ms < MIN_TICK_MS {
            MIN_TICK_MS
        } else {
            opts.tick_ms
        },
{
    if opts.tick_ms < MIN_TICK_MS {
        MIN_TICK_MS
    } else {
        opts.tick_ms
    }
}

/// Whether a new sample is due, `elapsed_nanos` after the last one.
pub fn tick_due(elapsed_nanos: u128, tick_nanos: u128) -> (r: bool)
    ensures
        r == (elapsed_nanos >= tick_nanos),
{
    elapsed_nanos >= tick_nanos
}

/// How long to wait for input: what is left of the tick, but at least
/// 33 ms so the loop never spins.
pub fn poll_timeout_nanos(tick_nanos: u128, elapsed_nanos: u128) -> (r: u128)
    ensures
        r == if elapsed_nanos >= tick_nanos || tick_nanos - elapsed_nanos < MIN_POLL_NANOS {
            MIN_POLL_NANOS
        } else {
            (tick_nanos - elapsed_nanos) as u128
        },
{
    let left = if elapsed_nanos >= tick_nanos {
        0
    } else {
        tick_nanos - elapsed_nanos
    };
    if left < MIN_POLL_NANOS {
        MIN_POLL_NANOS
    } else {
        left
    }
}

/// Smallest terminal the UI draws into.
pub fn frame_is_drawable(width: u16, height: u16) -> (r: bool)
    ensures
        r == (width >= 20 && height >= 6),
{
    !(width < 20 || height < 6)
}

/// The key codes the UI reacts to.
#[derive(Debug, Clone, Copy, PartialEq, Eq)]
pub enum KeyCode {
    Char(char),
    Tab,
    BackTab,
    Up,
    Down,
    Other,
}

/// Modifier bit for the Control key (as the terminal reports it).
pub const CONTROL: u8 = 0b0000_0010;

/// A key event: the key, the set of held modifiers as bits, and whether
/// it is a press (as opposed to a repeat or release).
#[derive(Debug, Clone, Copy)]
pub struct KeyEvent {
    pub code: KeyCode,
    pub modifiers: u8,
    pub is_press: bool,
}

/// What happens on each tick of the loop.
#[derive(Debug, Clone, Copy, PartialEq, Eq, Structural)]
pub enum TickAction {
    /// Take a fresh sample and show it as live.
    Sample,
    /// Keep the last sample, marked as no longer live.
    MarkStale,
}

/// UI state that keys change.
#[derive(Debug, Clone, Copy)]
pub struct App {
    pub active: TabId,
    pub paused: bool,
    pub proc_sort: ProcSort,
    pub proc_sel: usize,
}

/// Last selectable process row when `procs` processes are shown (none
/// shown counts as one row).
pub open spec fn sel_max(procs: Option<usize>) -> int {
    match procs {
        Some(n) => if n == 0 {
            0
        } else {
            n - 1
        },
        None => 0,
    }
}

/// The tab a plain key jumps to, if it is a tab hotkey.
pub open spec fn hotkey_tab(c: char) -> Option<TabId> {
    if c == '1' {
        Some(TabId::Overview)
    } else if c == '2' {
        Some(TabId::Cpu)
    } else if c == '3' {
        Some(TabId::Memory)
    } else if c == '4' {
        Some(TabId::Disks)
    } else if c == '5' {
        Some(TabId::Fs)
    } else if c == '6' {
        Some(TabId::Procs)
    } else if c == '7' {
        Some(TabId::Gpu)
    } else if c == '8' {
        Some(TabId::Power)
    } else if c == '9' {
        Some(TabId::Services)
    } else if c == '0' {
        Some(TabId::Net)
    } else if c == '-' {
        Some(TabId::Timeline)
    } else if c == '+' || c == '=' {
        Some(TabId::Insights)
    } else {
        None
    }
}

/// Down on the process tab moves the selection one row further, which
/// needs a row index below `usize::MAX`; no other key does arithmetic
/// that can overflow.
pub open spec fn down_needs_room(a: App, k: KeyEvent) -> bool {
    (k.is_press && k.code == KeyCode::Down && a.active == TabId::Procs) ==> a.proc_sel < usize::MAX
}

/// The state after key `k`, and whether the key quits the UI.
pub open spec fn after_key(a: App, k: KeyEvent, procs: Option<usize>) -> (App, bool) {
    if !k.is_press {
        (a, false)
    } else {
        match k.code {
            KeyCode::Char(c) => {
                if c == 'q' {
                    (a, true)
                } else if c == 'c' && k.modifiers == CONTROL {
                    (a, true)
                } else if c == 'p' {
                    (App { paused: !a.paused, ..a }, false)
                } else if hotkey_tab(c) is Some {
                    (App { active: hotkey_tab(c)->0, ..a }, false)
                } else if c == 's' && a.active == TabId::Procs {
                    (App { proc_sort: next_sort_spec(a.proc_sort), proc_sel: 0, ..a }, false)
                } else {
                    (a, false)
                }
            },
            KeyCode::Tab => (App { active: next_tab_spec(a.active), ..a }, false),
            KeyCode::BackTab => (App { active: prev_tab_spec(a.active), ..a }, false),
            KeyCode::Up => if a.active == TabId::Procs {
                (App { proc_sel: if a.proc_sel == 0 { 0 } else { (a.proc_sel - 1) as usize }, ..a }, false)
            } else {
                (a, false)
            },
            KeyCode::Down => if a.active == TabId::Procs {
                (
                    App {
                        proc_sel: if a.proc_sel + 1 <= sel_max(procs) {
                            (a.proc_sel + 1) as usize
                        } else {
                            sel_max(procs) as usize
                        },
                        ..a
                    },
                    false,
                )
            } else {
                (a, false)
            },
            KeyCode::Other => (a, false),
        }
    }
}

impl App {
    /// A fresh UI on tab `start`: live, sorted by CPU, first row selected.
    pub fn new(start: TabId) -> (r: App)
        ensures
            r.active == start,
            !r.paused,
            r.proc_sort == ProcSort::Cpu,
            r.proc_sel == 0,
    {
        App { active: start, paused: false, proc_sort: ProcSort::Cpu, proc_sel: 0 }
    }

    /// Apply key `k`, with `procs` processes on screen (None before the
    /// first sample). Returns true when the key quits the UI.
    pub fn handle_key(&mut self, k: KeyEvent, procs: Option<usize>) -> (quit: bool)
        requires
            down_needs_room(*old(self), k),
        ensures
            (*final(self), quit) == after_key(*old(self), k, procs),
    {
        if !k.is_press {
            return false;
        }
        match k.code {
            KeyCode::Char(c) => {
                if c == 'q' {
                    return true;
                } else if c == 'c' && k.modifiers == CONTROL {
                    return true;
                } else if c == 'p' {
                    self.paused = !self.paused;
                } else if c == '1' {
                    self.active = TabId::Overview;
                } else if c == '2' {
                    self.active = TabId::Cpu;
                } else if c == '3' {
                    self.active = TabId::Memory;
                } else if c == '4' {
                    self.active = TabId::Disks;
                } else if c == '5' {
                    self.active = TabId::Fs;
                } else if c == '6' {
                    self.active = TabId::Procs;
                } else if c == '7' {
                    self.active = TabId::Gpu;
                } else if c == '8' {
                    self.active = TabId::Power;
                } else if c == '9' {
                    self.active = TabId::Services;
                } else if c == '0' {
                    self.active = TabId::Net;
                } else if c == '-' {
                    self.active = TabId::Timeline;
                } else if c == '+' || c == '=' {
                    self.active = TabId::Insights;
                } else if c == 's' && self.active == TabId::Procs {
                    self.proc_sort = self.proc_sort.next();
                    self.proc_sel = 0;
                }
            },
            KeyCode::Tab => {
                self.active = next_tab(self.active);
            },
            KeyCode::BackTab => {
                self.active = prev_tab(self.active);
            },
            KeyCode::Up => {
                if self.active == TabId::Procs {
                    self.proc_sel = if self.proc_sel == 0 {
                        0
                    } else {
                        self.proc_sel - 1
                    };
                }
            },
            KeyCode::Down => {
                if self.active == TabId::Procs {
                    let max = match procs {
                        Some(n) => if n == 0 {
                            0
                        } else {
                            n - 1
                        },
                        None => 0,
                    };
                    let next = self.proc_sel + 1;
                    self.proc_sel = if next <= max {
                        next
                    } else {
                        max
                    };
                }
            },
            KeyCode::Other => {},
        }
        false
    }

    /// What this tick does: sample when live, else mark the last sample
    /// stale.
    pub fn tick_action(&self) -> (r: TickAction)
        ensures
            r == if self.paused {
                TickAction::MarkStale
            } else {
                TickAction::Sample
            },
    {
        if self.paused {
            TickAction::MarkStale
        } else {
            TickAction::Sample
        }
    }
}

// ───────────────────────── laws ─────────────────────────

/// BackTab undoes Tab and Tab undoes BackTab, on every tab.
pub proof fn lemma_prev_tab_undoes_next(t: TabId)
    ensures
        prev_tab_spec(next_tab_spec(t)) == t,
        next_tab_spec(prev_tab_spec(t)) == t,
{
}

/// `k` presses of Tab from `t`.
pub open spec fn tab_steps(t: TabId, k: nat) -> TabId
    decreases k,
{
    if k == 0 {
        t
    } else {
        next_tab_spec(tab_steps(t, (k - 1) as nat))
    }
}

proof fn lemma_tab_steps(t: TabId, k: nat)
    ensures
        tab_steps(t, k) == all_tabs()[(tab_index(t) + k) % 12],
    decreases k,
{
    if k > 0 {
        lemma_tab_steps(t, (k - 1) as nat);
        let j = (tab_index(t) + k - 1) % 12;
        assert(tab_index(all_tabs()[j]) == j);
    }
}

/// Twelve presses of Tab come back to the starting tab, and every tab is
/// reached on the way.
pub proof fn lemma_tab_cycle(t: TabId, u: TabId)
    ensures
        tab_steps(t, 12) == t,
        exists|k: nat| k < 12 && #[trigger] tab_steps(t, k) == u,
{
    lemma_tab_steps(t, 12);
    let k = ((tab_index(u) - tab_index(t) + 12) % 12) as nat;
    lemma_tab_steps(t, k);
    assert(tab_steps(t, k) == u);
}

/// The words of tab `t` as the literals spell them: its glyph names `t`
/// through `tab_named`, and its lowercased title is its name in the
/// settings popup, which is already lowercase and names `t` too.
proof fn lemma_tab_words(t: TabId)
    ensures
        tab_named(ascii_lower(glyph_of(t))) == Some(t),
        ascii_lower(title_of(t)) == tab_names()[tab_index(t)],
        ascii_lower(tab_names()[tab_index(t)]) == tab_names()[tab_index(t)],
        tab_named(tab_names()[tab_index(t)]) == Some(t),
{
    reveal_strlit("overview");
    reveal_strlit("1");
    reveal_strlit("cpu");
    reveal_strlit("2");
    reveal_strlit("memory");
    reveal_strlit("mem");
    reveal_strlit("3");
    reveal_strlit("disks");
    reveal_strlit("disk");
    reveal_strlit("4");
    reveal_strlit("fs");
    reveal_strlit("filesystems");
    reveal_strlit("5");
    reveal_strlit("procs");
    reveal_strlit("processes");
    reveal_strlit("6");
    reveal_strlit("gpu");
    reveal_strlit("7");
    reveal_strlit("power");
    reveal_strlit("8");
    reveal_strlit("services");
    reveal_strlit("9");
    reveal_strlit("net");
    reveal_strlit("network");
    reveal_strlit("0");
    reveal_strlit("timeline");
    reveal_strlit("-");
    reveal_strlit("insights");
    reveal_strlit("+");
    reveal_strlit("Overview");
    reveal_strlit("CPU");
    reveal_strlit("Memory");
    reveal_strlit("Disks");
    reveal_strlit("FS");
    reveal_strlit("Procs");
    reveal_strlit("GPU");
    reveal_strlit("Power");
    reveal_strlit("Services");
    reveal_strlit("Net");
    reveal_strlit("Timeline");
    reveal_strlit("Insights");
    // Literals of one character differ in that character.
    assert("1"@[0] == '1');
    assert("2"@[0] == '2');
    assert("3"@[0] == '3');
    assert("4"@[0] == '4');
    assert("5"@[0] == '5');
    assert("6"@[0] == '6');
    assert("7"@[0] == '7');
    assert("8"@[0] == '8');
    assert("9"@[0] == '9');
    assert("0"@[0] == '0');
    assert("-"@[0] == '-');
    assert("+"@[0] == '+');
    // Names of one length differ in one of their first two characters.
    assert("overview"@[0] == 'o' && "overview"@[1] == 'v');
    assert("cpu"@[0] == 'c' && "cpu"@[1] == 'p');
    assert("memory"@[0] == 'm' && "memory"@[1] == 'e');
    assert("mem"@[0] == 'm' && "mem"@[1] == 'e');
    assert("disks"@[0] == 'd' && "disks"@[1] == 'i');
    assert("disk"@[0] == 'd' && "disk"@[1] == 'i');
    assert("fs"@[0] == 'f' && "fs"@[1] == 's');
    assert("filesystems"@[0] == 'f' && "filesystems"@[1] == 'i');
    assert("procs"@[0] == 'p' && "procs"@[1] == 'r');
    assert("processes"@[0] == 'p' && "processes"@[1] == 'r');
    assert("gpu"@[0] == 'g' && "gpu"@[1] == 'p');
    assert("power"@[0] == 'p' && "power"@[1] == 'o');
    assert("services"@[0] == 's' && "services"@[1] == 'e');
    assert("net"@[0] == 'n' && "net"@[1] == 'e');
    assert("network"@[0] == 'n' && "network"@[1] == 'e');
    assert("timeline"@[0] == 't' && "timeline"@[1] == 'i');
    assert("insights"@[0] == 'i' && "insights"@[1] == 'n');
    assert(ascii_lower(glyph_of(t)) =~= glyph_of(t));
    assert(ascii_lower(title_of(t)) =~= tab_names()[tab_index(t)]);
    assert(ascii_lower(tab_names()[tab_index(t)]) =~= tab_names()[tab_index(t)]);
}

/// Every tab's hotkey glyph names that tab back through `from_str_loose`.
pub proof fn lemma_glyph_names_tab(t: TabId)
    ensures
        tab_named(ascii_lower(glyph_of(t))) == Some(t),
{
    lemma_tab_words(t);
}

/// Every tab's title, lowercased, names that tab back through
/// `from_str_loose`.
pub proof fn lemma_title_names_tab(t: TabId)
    ensures
        tab_named(ascii_lower(title_of(t))) == Some(t),
{
    lemma_tab_words(t);
}

/// The settings popup's tab names are accepted by `from_str_loose` and
/// name the tabs in tab-bar order, so a saved default tab opens the tab
/// the popup showed.
pub proof fn lemma_settings_tab_names(i: int)
    requires
        0 <= i < TAB_COUNT,
    ensures
        tab_named(ascii_lower(tab_names()[i])) == Some(all_tabs()[i]),
{
    lemma_tab_words(all_tabs()[i]);
}

/// The process selection never moves past the last row shown: if it was
/// in range before a key, it is in range after it.
pub proof fn lemma_selection_stays_in_range(a: App, k: KeyEvent, procs: Option<usize>)
    requires
        a.proc_sel <= sel_max(procs),
    ensures
        after_key(a, k, procs).0.proc_sel <= sel_max(procs),
{
}

/// Keys that quit leave the state as it was, and only a press of `q` or
/// Ctrl-C quits.
pub proof fn lemma_quit_keys(a: App, k: KeyEvent, procs: Option<usize>)
    ensures
        after_key(a, k, procs).1 ==> after_key(a, k, procs).0 == a,
        after_key(a, k, procs).1 <==> (k.is_press && (k.code == KeyCode::Char('q') || (k.code
            == KeyCode::Char('c') && k.modifiers == CONTROL))),
{
}

/// `k` presses of `s` on the process tab.
pub open spec fn sort_steps(s: ProcSort, k: nat) -> ProcSort
    decreases k,
{
    if k == 0 {
        s
    } else {
        next_sort_spec(sort_steps(s, (k - 1) as nat))
    }
}

proof fn lemma_sort_steps(s: ProcSort, k: nat)
    ensures
        sort_steps(s, k) == all_sorts()[(sort_index(s) + k) % 5],
    decreases k,
{
    if k > 0 {
        lemma_sort_steps(s, (k - 1) as nat);
        let j = (sort_index(s) + k - 1) % 5;
        assert(sort_index(all_sorts()[j]) == j);
    }
}

/// Five presses of `s` come back to the starting sort order, passing
/// through every order on the way.
pub proof fn lemma_sort_cycle(s: ProcSort, t: ProcSort)
    ensures
        sort_steps(s, 5) == s,
        exists|k: nat| k < 5 && #[trigger] sort_steps(s, k) == t,
{
    lemma_sort_steps(s, 5);
    let k = ((sort_index(t) - sort_index(s) + 5) % 5) as nat;
    lemma_sort_steps(s, k);
    assert(sort_steps(s, k) == t);
}

/// Pressing a tab's hotkey glyph, with any modifiers, opens that tab and
/// changes nothing else; the key does not quit.
pub proof fn lemma_hotkey_opens_its_tab(a: App, t: TabId, c: char, m: u8, procs: Option<usize>)
    requires
        glyph_of(t) == seq![c],
    ensures
        after_key(a, KeyEvent { code: KeyCode::Char(c), modifiers: m, is_press: true }, procs)
            == (App { active: t, ..a }, false),
{
    reveal_strlit("1");
    reveal_strlit("2");
    reveal_strlit("3");
    reveal_strlit("4");
    reveal_strlit("5");
    reveal_strlit("6");
    reveal_strlit("7");
    reveal_strlit("8");
    reveal_strlit("9");
    reveal_strlit("0");
    reveal_strlit("-");
    reveal_strlit("+");
    assert(glyph_of(t)[0] == c);
}

/// The other keys on a press: `p` flips pause, `=` opens Insights like
/// `+`; on the process tab Up moves the selection one row up (stopping at
/// the top), Down one row down (stopping at the last process, or the top
/// row when none are shown), and `s` picks the next sort order and
/// selects the top row. None of these quits or touches anything else,
/// and a character key that is neither a hotkey nor one of these does
/// nothing.
pub proof fn lemma_key_effects(a: App, k: KeyEvent, procs: Option<usize>)
    requires
        k.is_press,
    ensures
        k.code == KeyCode::Char('p') ==> after_key(a, k, procs) == (
            App { paused: !a.paused, ..a },
            false,
        ),
        k.code == KeyCode::Char('=') ==> after_key(a, k, procs) == (
            App { active: TabId::Insights, ..a },
            false,
        ),
        k.code == KeyCode::Up && a.active == TabId::Procs ==> after_key(a, k, procs) == (
            App { proc_sel: if a.proc_sel > 0 { (a.proc_sel - 1) as usize } else { 0 }, ..a },
            false,
        ),
        k.code == KeyCode::Down && a.active == TabId::Procs ==> {
            let last: int = match procs {
                Some(n) => if n > 0 { n - 1 } else { 0 },
                None => 0,
            };
            &&& !after_key(a, k, procs).1
            &&& after_key(a, k, procs).0.proc_sel == if a.proc_sel < last {
                a.proc_sel + 1
            } else {
                last
            }
            &&& after_key(a, k, procs).0 == App { proc_sel: after_key(a, k, procs).0.proc_sel, ..a }
        },
        k.code == KeyCode::Char('s') && a.active == TabId::Procs ==> after_key(a, k, procs) == (
            App { proc_sort: all_sorts()[(sort_index(a.proc_sort) + 1) % 5], proc_sel: 0, ..a },
            false,
        ),
        (k.code == KeyCode::Up || k.code == KeyCode::Down || k.code == KeyCode::Char('s'))
            && a.active != TabId::Procs ==> after_key(a, k, procs) == (a, false),
        k.code == KeyCode::Other ==> after_key(a, k, procs) == (a, false),
        k.code matches KeyCode::Char(c) && !('0' <= c <= '9' || c == '-' || c == '+' || c == '='
            || c == 'p' || c == 'q' || c == 's' || c == 'c') ==> after_key(a, k, procs) == (a, false),
{
}

} // verus!
