//! Settings popup model: a list of label/value rows, ←→ to cycle enum
//! values, Enter to edit numerics.
//!
//! All mutation flows through `cycle_next`, `cycle_prev` and
//! `apply_edit`, so the row→config mapping lives in one place. Drawing
//! the popup is the terminal front end's job.

use vstd::prelude::*;

use crate::config::{ConfigView, SyswatchConfig, TICK_MAX_MS, TICK_MIN_MS, is_valid};
use crate::num::{decimal, lemma_parse_decimal, lemma_trim_decimal, parse_unsigned, u64_to_string};
use crate::text::{chars_of, push_str, string_from_chars, string_of, trim_chars, trim_ws};
use crate::theme::{lemma_theme_names_distinct, theme_name, theme_names, THEME_COUNT};

pub mod cursor;

verus! {

/// Number of rows in the popup.
pub const ROWS: usize = 4;

/// Number of tab names accepted by `default_tab`.
pub const TAB_COUNT: usize = 12;

/// Tab-name strings accepted by `default_tab`, in the popup's cycle
/// order. Kept in sync with `app::TabId::from_str_loose`.
pub open spec fn tab_names() -> Seq<Seq<char>> {
    seq![
        "overview"@,
        "cpu"@,
        "memory"@,
        "disks"@,
        "fs"@,
        "procs"@,
        "gpu"@,
        "power"@,
        "services"@,
        "net"@,
        "timeline"@,
        "insights"@,
    ]
}

/// The name of tab `i` in the popup's cycle order.
pub fn tab_name(i: usize) -> (s: String)
    requires
        i < TAB_COUNT,
    ensures
        s@ == tab_names()[i as int],
{
    match i {
        0 => string_of("overview"),
        1 => string_of("cpu"),
        2 => string_of("memory"),
        3 => string_of("disks"),
        4 => string_of("fs"),
        5 => string_of("procs"),
        6 => string_of("gpu"),
        7 => string_of("power"),
        8 => string_of("services"),
        9 => string_of("net"),
        10 => string_of("timeline"),
        _ => string_of("insights"),
    }
}

/// No two tab names are equal, and none is blank.
pub proof fn lemma_tab_names_distinct()
    ensures
        tab_names().len() == TAB_COUNT,
        forall|i: int, j: int| 0 <= i < j < TAB_COUNT ==> tab_names()[i] != tab_names()[j],
        forall|i: int| 0 <= i < TAB_COUNT ==> tab_names()[i].len() > 0,
{
    reveal_strlit("overview");
    reveal_strlit("cpu");
    reveal_strlit("memory");
    reveal_strlit("disks");
    reveal_strlit("fs");
    reveal_strlit("procs");
    reveal_strlit("gpu");
    reveal_strlit("power");
    reveal_strlit("services");
    reveal_strlit("net");
    reveal_strlit("timeline");
    reveal_strlit("insights");
    let n = tab_names();
    assert forall|i: int, j: int| 0 <= i < j < TAB_COUNT implies n[i] != n[j] by {
        if n[i].len() == n[j].len() {
            assert(n[i][0] != n[j][0] || n[i][1] != n[j][1]);
        }
    }
}

/// The two lists the popup cycles through.
pub enum NameList {
    Themes,
    Tabs,
}

pub open spec fn names(l: NameList) -> Seq<Seq<char>> {
    match l {
        NameList::Themes => theme_names(),
        NameList::Tabs => tab_names(),
    }
}

pub proof fn lemma_names_distinct(l: NameList)
    ensures
        names(l).len() > 0,
        forall|i: int, j: int| 0 <= i < j < names(l).len() ==> names(l)[i] != names(l)[j],
        forall|i: int| 0 <= i < names(l).len() ==> names(l)[i].len() > 0,
{
    lemma_theme_names_distinct();
    lemma_tab_names_distinct();
}

fn name_count(l: &NameList) -> (n: usize)
    ensures
        n == names(*l).len(),
{
    proof {
        lemma_theme_names_distinct();
        lemma_tab_names_distinct();
    }
    match l {
        NameList::Themes => THEME_COUNT,
        NameList::Tabs => TAB_COUNT,
    }
}

fn name_at(l: &NameList, i: usize) -> (s: String)
    requires
        i < names(*l).len(),
    ensures
        s@ == names(*l)[i as int],
{
    proof {
        lemma_theme_names_distinct();
        lemma_tab_names_distinct();
    }
    match l {
        NameList::Themes => theme_name(i),
        NameList::Tabs => tab_name(i),
    }
}

/// Index of the first name equal to `x` at or after `k`, or 0 when there
/// is none — `iter().position(..).unwrap_or(0)`.
pub open spec fn position_from(ns: Seq<Seq<char>>, x: Seq<char>, k: int) -> int
    decreases ns.len() - k,
{
    if k < 0 || k >= ns.len() {
        0
    } else if ns[k] == x {
        k
    } else {
        position_from(ns, x, k + 1)
    }
}

pub open spec fn position_in(ns: Seq<Seq<char>>, x: Seq<char>) -> int {
    position_from(ns, x, 0)
}

proof fn lemma_position_from_range(ns: Seq<Seq<char>>, x: Seq<char>, k: int)
    ensures
        0 <= position_from(ns, x, k) < ns.len() || (ns.len() == 0 && position_from(ns, x, k)
            == 0),
    decreases ns.len() - k,
{
    if k < 0 || k >= ns.len() {
    } else if ns[k] == x {
    } else {
        lemma_position_from_range(ns, x, k + 1);
    }
}

proof fn lemma_position_of_member(ns: Seq<Seq<char>>, i: int, k: int)
    requires
        0 <= k <= i < ns.len(),
        forall|a: int, b: int| 0 <= a < b < ns.len() ==> ns[a] != ns[b],
    ensures
        position_from(ns, ns[i], k) == i,
    decreases i - k,
{
    if k < i {
        assert(ns[k] != ns[i]);
        lemma_position_of_member(ns, i, k + 1);
    }
}

/// The name after `x` in the list (the first name when `x` is not in it,
/// as `position` falls back to 0 and then steps one on).
pub open spec fn next_name(l: NameList, x: Seq<char>) -> Seq<char> {
    let ns = names(l);
    ns[(position_in(ns, x) + 1) % (ns.len() as int)]
}

/// The name before `x` in the list, wrapping around.
pub open spec fn prev_name(l: NameList, x: Seq<char>) -> Seq<char> {
    let ns = names(l);
    ns[(position_in(ns, x) + ns.len() - 1) % (ns.len() as int)]
}

/// The graph-style toggle: `"bars"` becomes `"dots"`, anything else `"bars"`.
pub open spec fn toggled_style(s: Seq<char>) -> Seq<char> {
    if s == "bars"@ {
        "dots"@
    } else {
        "bars"@
    }
}

/// What `cycle_next` makes of a config at row `cursor`.
pub open spec fn cycled_next(c: ConfigView, cursor: usize) -> ConfigView {
    if cursor == cursor::THEME {
        ConfigView { theme: next_name(NameList::Themes, c.theme), ..c }
    } else if cursor == cursor::GRAPH_STYLE {
        ConfigView { graph_style: toggled_style(c.graph_style), ..c }
    } else if cursor == cursor::DEFAULT_TAB {
        ConfigView { default_tab: next_name(NameList::Tabs, c.default_tab), ..c }
    } else {
        c
    }
}

/// What `cycle_prev` makes of a config at row `cursor`.
pub open spec fn cycled_prev(c: ConfigView, cursor: usize) -> ConfigView {
    if cursor == cursor::THEME {
        ConfigView { theme: prev_name(NameList::Themes, c.theme), ..c }
    } else if cursor == cursor::GRAPH_STYLE {
        ConfigView { graph_style: toggled_style(c.graph_style), ..c }
    } else if cursor == cursor::DEFAULT_TAB {
        ConfigView { default_tab: prev_name(NameList::Tabs, c.default_tab), ..c }
    } else {
        c
    }
}

/// Position of `x` in the list, or 0 when it is not there.
fn position(l: &NameList, x: &String) -> (r: usize)
    ensures
        r == position_in(names(*l), x@),
        r < names(*l).len(),
{
    let n = name_count(l);
    proof {
        lemma_names_distinct(*l);
    }
    let mut i: usize = 0;
    while i < n
        invariant
            n == names(*l).len(),
            0 < n,
            i <= n,
            position_in(names(*l), x@) == position_from(names(*l), x@, i as int),
        decreases n - i,
    {
        let name = name_at(l, i);
        if name == *x {
            return i;
        }
        i = i + 1;
    }
    0
}

fn next_in(l: &NameList, x: &String) -> (r: String)
    ensures
        r@ == next_name(*l, x@),
{
    let n = name_count(l);
    let i = position(l, x);
    name_at(l, (i + 1) % n)
}

fn prev_in(l: &NameList, x: &String) -> (r: String)
    ensures
        r@ == prev_name(*l, x@),
{
    let n = name_count(l);
    let i = position(l, x);
    name_at(l, (i + n - 1) % n)
}

/// Whether the row at `idx` is enum-cycled (←→) vs free-text (Enter).
pub fn is_enum_row(idx: usize) -> (r: bool)
    ensures
        r == (idx == cursor::THEME || idx == cursor::GRAPH_STYLE || idx == cursor::DEFAULT_TAB),
{
    idx == cursor::THEME || idx == cursor::GRAPH_STYLE || idx == cursor::DEFAULT_TAB
}

/// One row of the popup: what it shows on the left and right.
pub struct Row {
    pub label: &'static str,
    pub value: String,
}

/// The popup's rows for `cfg`, top to bottom.
pub fn build_rows(cfg: &SyswatchConfig) -> (rows: Vec<Row>)
    ensures
        rows.len() == ROWS,
        rows[0].label@ == "Theme"@,
        rows[0].value@ == cfg.theme@,
        rows[1].label@ == "Graph Style"@,
        rows[1].value@ == cfg.graph_style@,
        rows[2].label@ == "Default Tab"@,
        rows[2].value@ == cfg.default_tab@,
        rows[3].label@ == "Tick (ms)"@,
        rows[3].value@ == decimal(cfg.tick_ms as nat),
{
    let mut rows: Vec<Row> = Vec::new();
    rows.push(Row { label: "Theme", value: cfg.theme.clone() });
    rows.push(Row { label: "Graph Style", value: cfg.graph_style.clone() });
    rows.push(Row { label: "Default Tab", value: cfg.default_tab.clone() });
    rows.push(Row { label: "Tick (ms)", value: u64_to_string(cfg.tick_ms) });
    rows
}

/// Width of the popup inside an area `width` columns wide: 60% of it but
/// at least 50 columns, and never closer than 2 columns to either side.
pub open spec fn popup_width(width: u16) -> int {
    let pct: int = width * 60 / 100;
    let wide: int = if pct >= 50 { pct } else { 50 };
    let room: int = if width >= 4 { width - 4 } else { 0 };
    if wide <= room { wide } else { room }
}

/// Height of the popup inside an area `height` rows tall: the rows plus
/// title, blank, status and footer lines, never closer than 2 rows to the
/// top or bottom.
pub open spec fn popup_height(height: u16) -> int {
    let room: int = if height >= 4 { height - 4 } else { 0 };
    if ROWS + 7 <= room { ROWS + 7 } else { room }
}

/// The popup's rectangle (x, y, width, height), centred in the area.
pub open spec fn popup_spec(x: u16, y: u16, width: u16, height: u16) -> (u16, u16, u16, u16) {
    let w = popup_width(width);
    let h = popup_height(height);
    ((x + (width - w) / 2) as u16, (y + (height - h) / 2) as u16, w as u16, h as u16)
}

/// Where the settings popup is drawn inside the area at (`x`, `y`) of
/// `width` × `height` cells. The width computation is done in 16 bits,
/// so areas wider than 1092 columns are out of its range.
pub fn popup_area(x: u16, y: u16, width: u16, height: u16) -> (r: (u16, u16, u16, u16))
    requires
        width * 60 <= u16::MAX,
        x + (width - popup_width(width)) / 2 <= u16::MAX,
        y + (height - popup_height(height)) / 2 <= u16::MAX,
    ensures
        r == popup_spec(x, y, width, height),
{
    let pct: u16 = width * 60 / 100;
    let wide: u16 = if pct >= 50 { pct } else { 50 };
    let room: u16 = if width >= 4 { width - 4 } else { 0 };
    let w: u16 = if wide <= room { wide } else { room };
    let room_h: u16 = if height >= 4 { height - 4 } else { 0 };
    let h: u16 = if (ROWS as u16) + 7 <= room_h { (ROWS as u16) + 7 } else { room_h };
    (x + (width - w) / 2, y + (height - h) / 2, w, h)
}

/// What a row shows as its value: the edit buffer with a cursor bar while
/// it is being edited, the value between ◀ ▶ when it is selected and
/// cycles with ←→, else the plain value.
pub open spec fn row_display(
    value: Seq<char>,
    row: usize,
    cursor: usize,
    editing: bool,
    edit_buf: Seq<char>,
) -> Seq<char> {
    let selected = row == cursor;
    if selected && editing {
        edit_buf + "▏"@
    } else if selected && (row == cursor::THEME || row == cursor::GRAPH_STYLE || row
        == cursor::DEFAULT_TAB) {
        "◀ "@ + value + " ▶"@
    } else {
        value
    }
}

/// The value text of row `row` when the cursor is on row `cursor` and
/// `editing` says whether the cursor row is being edited.
pub fn row_value_display(
    value: &str,
    row: usize,
    cursor: usize,
    editing: bool,
    edit_buf: &str,
) -> (r: String)
    ensures
        r@ == row_display(value@, row, cursor, editing, edit_buf@),
{
    let selected = row == cursor;
    let mut out: Vec<char> = Vec::new();
    if selected && editing {
        push_str(&mut out, edit_buf);
        push_str(&mut out, "▏");
    } else if selected && is_enum_row(row) {
        push_str(&mut out, "◀ ");
        push_str(&mut out, value);
        push_str(&mut out, " ▶");
    } else {
        push_str(&mut out, value);
    }
    string_from_chars(&out)
}

/// Which key hints the popup's footer lists.
#[derive(Debug, Clone, Copy, PartialEq, Eq, Structural)]
pub enum FooterHints {
    /// Enter applies, Esc cancels.
    Editing,
    /// ←→ cycle, ↑↓ navigate, S saves, Esc closes.
    Cycle,
    /// ↑↓ navigate, Enter edits, S saves, Esc closes.
    Edit,
}

/// The footer for the popup's state: editing wins, then the kind of the
/// cursor's row.
pub fn footer_hints(editing: bool, cursor: usize) -> (r: FooterHints)
    ensures
        r == if editing {
            FooterHints::Editing
        } else if cursor == cursor::THEME || cursor == cursor::GRAPH_STYLE || cursor
            == cursor::DEFAULT_TAB {
            FooterHints::Cycle
        } else {
            FooterHints::Edit
        },
{
    if editing {
        FooterHints::Editing
    } else if is_enum_row(cursor) {
        FooterHints::Cycle
    } else {
        FooterHints::Edit
    }
}

/// Cycle to the next value for an enum row. No-op for non-enum rows.
pub fn cycle_next(cfg: &mut SyswatchConfig, cursor: usize)
    ensures
        final(cfg)@ == cycled_next(old(cfg)@, cursor),
{
    if cursor == cursor::THEME {
        cfg.theme = next_in(&NameList::Themes, &cfg.theme);
    } else if cursor == cursor::GRAPH_STYLE {
        let bars = chars_of("bars");
        let cur = chars_of(cfg.graph_style.as_str());
        if crate::text::chars_eq(&cur, &bars) {
            cfg.graph_style = string_of("dots");
        } else {
            cfg.graph_style = string_of("bars");
        }
    } else if cursor == cursor::DEFAULT_TAB {
        cfg.default_tab = next_in(&NameList::Tabs, &cfg.default_tab);
    }
}

/// Cycle to the previous value for an enum row. The graph style has two
/// states, so it toggles the same way in both directions. No-op for
/// non-enum rows.
pub fn cycle_prev(cfg: &mut SyswatchConfig, cursor: usize)
    ensures
        final(cfg)@ == cycled_prev(old(cfg)@, cursor),
{
    if cursor == cursor::THEME {
        cfg.theme = prev_in(&NameList::Themes, &cfg.theme);
    } else if cursor == cursor::GRAPH_STYLE {
        cycle_next(cfg, cursor);
    } else if cursor == cursor::DEFAULT_TAB {
        cfg.default_tab = prev_in(&NameList::Tabs, &cfg.default_tab);
    }
}

pub open spec fn msg_not_integer() -> Seq<char> {
    "Tick must be a positive integer"@
}

pub open spec fn msg_out_of_range() -> Seq<char> {
    "Tick must be between 100 and 5000 ms"@
}

pub open spec fn msg_enum_only() -> Seq<char> {
    "This row is enum-only — use ←/→ to cycle."@
}

/// The outcome of a free-text edit of row `cursor` to `value`: the new
/// config, or the message shown to the user.
pub open spec fn edit_outcome(c: ConfigView, cursor: usize, value: Seq<char>) -> Result<
    ConfigView,
    Seq<char>,
> {
    if cursor == cursor::TICK_MS {
        match parse_unsigned(trim_ws(value), u64::MAX as nat) {
            None => Err(msg_not_integer()),
            Some(v) => if TICK_MIN_MS <= v <= TICK_MAX_MS {
                Ok(ConfigView { tick_ms: v as u64, ..c })
            } else {
                Err(msg_out_of_range())
            },
        }
    } else {
        Err(msg_enum_only())
    }
}

/// Apply a free-text edit (numerics) to the config. Returns Err with a
/// human-readable message on validation failure, and then leaves the
/// config as it was.
pub fn apply_edit(cfg: &mut SyswatchConfig, cursor: usize, value: &str) -> (r: Result<(), String>)
    ensures
        match edit_outcome(old(cfg)@, cursor, value@) {
            Ok(c) => r is Ok && final(cfg)@ == c,
            Err(m) => r matches Err(e) && e@ == m && final(cfg)@ == old(cfg)@,
        },
{
    if cursor == cursor::TICK_MS {
        let chars = chars_of(value);
        let trimmed = trim_chars(&chars, false);
        match crate::num::parse_u64(&trimmed) {
            None => Err(string_of("Tick must be a positive integer")),
            Some(v) => {
                if !(TICK_MIN_MS <= v && v <= TICK_MAX_MS) {
                    return Err(string_of("Tick must be between 100 and 5000 ms"));
                }
                cfg.tick_ms = v;
                Ok(())
            },
        }
    } else {
        Err(string_of("This row is enum-only — use ←/→ to cycle."))
    }
}

/// The text the edit buffer starts with for row `cursor`.
pub open spec fn edit_text(c: ConfigView, cursor: usize) -> Seq<char> {
    if cursor == cursor::TICK_MS {
        decimal(c.tick_ms as nat)
    } else {
        Seq::empty()
    }
}

/// Pre-fill the edit buffer with the current value at `cursor`.
pub fn edit_value(cfg: &SyswatchConfig, cursor: usize) -> (s: String)
    ensures
        s@ == edit_text(cfg@, cursor),
{
    if cursor == cursor::TICK_MS {
        u64_to_string(cfg.tick_ms)
    } else {
        String::new()
    }
}

// ───────────────────────── laws ─────────────────────────

proof fn lemma_step_back(l: NameList, x: Seq<char>)
    requires
        names(l).contains(x),
    ensures
        prev_name(l, next_name(l, x)) == x,
        next_name(l, prev_name(l, x)) == x,
{
    lemma_names_distinct(l);
    let ns = names(l);
    let n = ns.len() as int;
    match l {
        NameList::Themes => assert(n == 6),
        NameList::Tabs => assert(n == 12),
    }
    let i = choose|i: int| 0 <= i < n && ns[i] == x;
    lemma_position_of_member(ns, i, 0);
    let j = (i + 1) % n;
    lemma_position_of_member(ns, j, 0);
    assert((j + n - 1) % n == i);
    let k = (i + n - 1) % n;
    lemma_position_of_member(ns, k, 0);
    assert((k + 1) % n == i);
}

/// Cycling back undoes cycling forward on every row, and the other way
/// round, as long as the enum fields hold values the popup knows: a theme
/// name, `"bars"` or `"dots"`, and a tab name.
pub proof fn lemma_cycle_prev_undoes_next(c: ConfigView, cursor: usize)
    requires
        theme_names().contains(c.theme),
        c.graph_style == "bars"@ || c.graph_style == "dots"@,
        tab_names().contains(c.default_tab),
    ensures
        cycled_prev(cycled_next(c, cursor), cursor) == c,
        cycled_next(cycled_prev(c, cursor), cursor) == c,
{
    reveal_strlit("bars");
    reveal_strlit("dots");
    assert("bars"@[0] != "dots"@[0]);
    lemma_step_back(NameList::Themes, c.theme);
    lemma_step_back(NameList::Tabs, c.default_tab);
}

/// `k` steps of `cycle_next` on row `cursor`.
pub open spec fn next_times(c: ConfigView, cursor: usize, k: nat) -> ConfigView
    decreases k,
{
    if k == 0 {
        c
    } else {
        cycled_next(next_times(c, cursor, (k - 1) as nat), cursor)
    }
}

proof fn lemma_next_steps(l: NameList, c: ConfigView, cursor: usize, i: int, k: nat)
    requires
        (l == NameList::Themes && cursor == cursor::THEME) || (l == NameList::Tabs && cursor
            == cursor::DEFAULT_TAB),
        0 <= i < names(l).len(),
        (if cursor == cursor::THEME {
            c.theme
        } else {
            c.default_tab
        }) == names(l)[i],
    ensures
        next_times(c, cursor, k) == (if cursor == cursor::THEME {
            ConfigView { theme: names(l)[(i + k) % (names(l).len() as int)], ..c }
        } else {
            ConfigView { default_tab: names(l)[(i + k) % (names(l).len() as int)], ..c }
        }),
    decreases k,
{
    lemma_names_distinct(l);
    let ns = names(l);
    let n = ns.len() as int;
    match l {
        NameList::Themes => assert(n == 6),
        NameList::Tabs => assert(n == 12),
    }
    if k == 0 {
        assert(i % n == i);
    } else {
        lemma_next_steps(l, c, cursor, i, (k - 1) as nat);
        let j = (i + k - 1) % n;
        lemma_position_of_member(ns, j, 0);
        assert((j + 1) % n == (i + k) % n);
    }
}

/// Cycling forward through the whole theme list comes back to where it
/// started: as many `cycle_next` steps on the theme row as there are
/// themes leave a known theme unchanged.
pub proof fn lemma_theme_cycle_full_circle(c: ConfigView)
    requires
        theme_names().contains(c.theme),
    ensures
        next_times(c, cursor::THEME, THEME_COUNT as nat) == c,
{
    lemma_theme_names_distinct();
    let i = choose|i: int| 0 <= i < THEME_COUNT && theme_names()[i] == c.theme;
    lemma_next_steps(NameList::Themes, c, cursor::THEME, i, THEME_COUNT as nat);
    assert((i + 6) % 6 == i);
}

/// As many `cycle_next` steps on the default-tab row as there are tab
/// names leave a known tab unchanged.
pub proof fn lemma_tab_cycle_full_circle(c: ConfigView)
    requires
        tab_names().contains(c.default_tab),
    ensures
        next_times(c, cursor::DEFAULT_TAB, TAB_COUNT as nat) == c,
{
    lemma_tab_names_distinct();
    let t = choose|t: int| 0 <= t < TAB_COUNT && tab_names()[t] == c.default_tab;
    lemma_next_steps(NameList::Tabs, c, cursor::DEFAULT_TAB, t, TAB_COUNT as nat);
    assert((t + 12) % 12 == t);
}

/// Starting from a known tab, one round of `cycle_next` on the
/// default-tab row passes through every tab name.
pub proof fn lemma_tab_cycle_visits_every_tab(c: ConfigView, j: int)
    requires
        tab_names().contains(c.default_tab),
        0 <= j < TAB_COUNT,
    ensures
        exists|k: nat|
            1 <= k <= TAB_COUNT && #[trigger] next_times(c, cursor::DEFAULT_TAB, k).default_tab
                == tab_names()[j],
{
    lemma_tab_names_distinct();
    let i = choose|i: int| 0 <= i < TAB_COUNT && tab_names()[i] == c.default_tab;
    let k: nat = if j > i {
        (j - i) as nat
    } else {
        (j - i + 12) as nat
    };
    lemma_next_steps(NameList::Tabs, c, cursor::DEFAULT_TAB, i, k);
    assert((i + k) % 12 == j);
    assert(next_times(c, cursor::DEFAULT_TAB, k).default_tab == tab_names()[j]);
}

/// Editing the tick row with the text it was pre-filled with succeeds and
/// changes nothing, for any tick in the accepted range.
pub proof fn lemma_edit_value_round_trip(c: ConfigView)
    requires
        TICK_MIN_MS <= c.tick_ms <= TICK_MAX_MS,
    ensures
        edit_outcome(c, cursor::TICK_MS, edit_text(c, cursor::TICK_MS)) == Ok::<
            ConfigView,
            Seq<char>,
        >(c),
{
    lemma_trim_decimal(c.tick_ms as nat);
    lemma_parse_decimal(c.tick_ms as nat, u64::MAX as nat);
}

/// An edit either fails and leaves the config alone, or changes only the
/// tick, to a value in range; so a valid config stays valid.
pub proof fn lemma_edit_keeps_valid(c: ConfigView, cursor: usize, value: Seq<char>)
    requires
        is_valid(c),
    ensures
        edit_outcome(c, cursor, value) matches Ok(d) ==> is_valid(d) && d.theme == c.theme
            && d.graph_style == c.graph_style && d.default_tab == c.default_tab,
{
}

/// Cycling keeps a valid config valid: every value the popup cycles to is
/// non-blank.
pub proof fn lemma_cycle_keeps_valid(c: ConfigView, cursor: usize)
    requires
        is_valid(c),
    ensures
        is_valid(cycled_next(c, cursor)),
        is_valid(cycled_prev(c, cursor)),
{
    reveal_strlit("bars");
    reveal_strlit("dots");
    lemma_names_distinct(NameList::Themes);
    lemma_names_distinct(NameList::Tabs);
    lemma_position_from_range(theme_names(), c.theme, 0);
    lemma_position_from_range(tab_names(), c.default_tab, 0);
}

/// The settings popup fits in its area and is centred in it: at most the
/// area's size less two cells on each side (when there is room for that),
/// at least 50 columns wide whenever the area allows, as many rows as the
/// rows plus seven when they fit, and the space left over is split
/// evenly, the odd cell going right or below.
pub proof fn lemma_popup_fits_centred(x: u16, y: u16, width: u16, height: u16)
    requires
        width * 60 <= u16::MAX,
        x + (width - popup_width(width)) / 2 <= u16::MAX,
        y + (height - popup_height(height)) / 2 <= u16::MAX,
    ensures
        ({
            let (px, py, pw, ph) = popup_spec(x, y, width, height);
            &&& pw + 4 <= width || pw == 0
            &&& ph + 4 <= height || ph == 0
            &&& x <= px && px + pw <= x + width
            &&& y <= py && py + ph <= y + height
            &&& 2 * (px - x) == width - pw || 2 * (px - x) + 1 == width - pw
            &&& 2 * (py - y) == height - ph || 2 * (py - y) + 1 == height - ph
            &&& (width >= 54 ==> pw >= 50)
            &&& (width >= 54 ==> 100 * pw >= 60 * width - 99)
            &&& (height >= ROWS + 11 ==> ph == ROWS + 7)
        }),
{
}

} // verus!
