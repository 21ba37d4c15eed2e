//! Persistent user config (`~/.config/syswatch/config.toml`).
//!
//! The struct, its defaults and the repair rule live here; reading and
//! writing the file is done by the binary.

use vstd::prelude::*;

use crate::text::string_of;

verus! {

/// User settings that survive restarts.
#[derive(Debug, Clone)]
pub struct SyswatchConfig {
    /// Active theme name (one of `theme::THEME_NAMES` when set from the UI).
    pub theme: String,
    /// Active graph style — `"bars"` or `"dots"`.
    pub graph_style: String,
    /// Tab the app opens on. Lowercase tab name, e.g. `"overview"` / `"cpu"`.
    pub default_tab: String,
    /// Sample interval in milliseconds. Clamped to `[100, 5000]` on load.
    pub tick_ms: u64,
}

/// The contents of a config, as contracts speak of it.
pub struct ConfigView {
    pub theme: Seq<char>,
    pub graph_style: Seq<char>,
    pub default_tab: Seq<char>,
    pub tick_ms: u64,
}

impl View for SyswatchConfig {
    type V = ConfigView;

    open spec fn view(&self) -> ConfigView {
        ConfigView {
            theme: self.theme@,
            graph_style: self.graph_style@,
            default_tab: self.default_tab@,
            tick_ms: self.tick_ms,
        }
    }
}

pub const TICK_MIN_MS: u64 = 100;

pub const TICK_MAX_MS: u64 = 5000;

pub const DEFAULT_TICK_MS: u64 = 1000;

pub open spec fn default_theme() -> Seq<char> {
    "dark"@
}

pub open spec fn default_graph_style() -> Seq<char> {
    "bars"@
}

pub open spec fn default_tab_name() -> Seq<char> {
    "overview"@
}

/// The defaults every missing or blank field falls back to.
pub open spec fn default_config() -> ConfigView {
    ConfigView {
        theme: default_theme(),
        graph_style: default_graph_style(),
        default_tab: default_tab_name(),
        tick_ms: DEFAULT_TICK_MS,
    }
}

/// `u64::clamp(t, lo, hi)`.
pub open spec fn clamp_u64(t: u64, lo: u64, hi: u64) -> u64 {
    if t < lo {
        lo
    } else if t > hi {
        hi
    } else {
        t
    }
}

/// A blank field takes its default; any other value is kept.
pub open spec fn or_default(s: Seq<char>, d: Seq<char>) -> Seq<char> {
    if s.len() == 0 {
        d
    } else {
        s
    }
}

/// What `validate` makes of a config.
pub open spec fn validated(c: ConfigView) -> ConfigView {
    ConfigView {
        theme: or_default(c.theme, default_theme()),
        graph_style: or_default(c.graph_style, default_graph_style()),
        default_tab: or_default(c.default_tab, default_tab_name()),
        tick_ms: clamp_u64(c.tick_ms, TICK_MIN_MS, TICK_MAX_MS),
    }
}

/// A config that `validate` has nothing to repair in.
pub open spec fn is_valid(c: ConfigView) -> bool {
    &&& c.theme.len() > 0
    &&& c.graph_style.len() > 0
    &&& c.default_tab.len() > 0
    &&& TICK_MIN_MS <= c.tick_ms <= TICK_MAX_MS
}

impl Default for SyswatchConfig {
    fn default() -> (r: Self)
        ensures
            r@ == default_config(),
    {
        SyswatchConfig {
            theme: string_of("dark"),
            graph_style: string_of("bars"),
            default_tab: string_of("overview"),
            tick_ms: DEFAULT_TICK_MS,
        }
    }
}

impl SyswatchConfig {
    /// Clamp / repair fields that may arrive out of range from a hand-edited
    /// config: the tick goes into `[100, 5000]` and blank strings take their
    /// defaults.
    pub fn validate(&mut self)
        ensures
            final(self)@ == validated(old(self)@),
    {
        if self.tick_ms < TICK_MIN_MS {
            self.tick_ms = TICK_MIN_MS;
        } else if self.tick_ms > TICK_MAX_MS {
            self.tick_ms = TICK_MAX_MS;
        }
        if self.theme.as_str().is_empty() {
            self.theme = string_of("dark");
        }
        if self.graph_style.as_str().is_empty() {
            self.graph_style = string_of("bars");
        }
        if self.default_tab.as_str().is_empty() {
            self.default_tab = string_of("overview");
        }
    }
}

/// The defaults need no repair.
pub proof fn lemma_default_is_valid()
    ensures
        is_valid(default_config()),
        validated(default_config()) == default_config(),
{
    reveal_strlit("dark");
    reveal_strlit("bars");
    reveal_strlit("overview");
}

/// Whatever `validate` returns is valid, and validating again changes
/// nothing; a config that is already valid is left as it was.
pub proof fn lemma_validate_idempotent(c: ConfigView)
    ensures
        is_valid(validated(c)),
        validated(validated(c)) == validated(c),
        is_valid(c) ==> validated(c) == c,
{
    reveal_strlit("dark");
    reveal_strlit("bars");
    reveal_strlit("overview");
}

} // verus!
