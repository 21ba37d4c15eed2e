//! Row indices of the settings popup.

use vstd::prelude::*;

verus! {

pub const THEME: usize = 0;

pub const GRAPH_STYLE: usize = 1;

pub const DEFAULT_TAB: usize = 2;

pub const TICK_MS: usize = 3;

} // verus!
