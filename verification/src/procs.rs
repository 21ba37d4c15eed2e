//! Process table helpers.

use vstd::prelude::*;

use crate::text::{chars_of, string_from_chars};

verus! {

/// Width of the fixed columns of a process row before the command:
/// 7+1 + 7+1 + 14+1 + 5+1 + 9+1 + 9+1 + 5+1 + 11+1.
pub const FIXED_COLUMNS: usize = 73;

/// The padding that extends a selected row's background to `width`
/// columns after a command of `used` characters: spaces, or nothing when
/// the row already fills the width.
pub open spec fn fill_width(width: usize, used: Seq<char>) -> nat {
    if width > FIXED_COLUMNS + used.len() {
        (width - FIXED_COLUMNS - used.len()) as nat
    } else {
        0
    }
}

pub fn fill(width: usize, used: &str) -> (r: String)
    ensures
        r@.len() == fill_width(width, used@),
        forall|i: int| 0 <= i < r@.len() ==> r@[i] == ' ',
{
    let c = chars_of(used);
    let mut out: Vec<char> = Vec::new();
    if c.len() < width && width - c.len() > FIXED_COLUMNS {
        let n = width - c.len() - FIXED_COLUMNS;
        for i in 0..n
            invariant
                out@.len() == i,
                forall|j: int| 0 <= j < i ==> out@[j] == ' ',
        {
            out.push(' ');
        }
    }
    string_from_chars(&out)
}

/// The rows a process table shows: `take` rows fit under the header of a
/// panel `height` rows tall; the selection is clamped to the last process,
/// and the window `start..end` scrolls just far enough to keep it in view.
pub open spec fn window_spec(height: u16, sel: usize, n: usize) -> (usize, usize, usize) {
    let take: int = if height >= 1 { height - 1 } else { 0 };
    let last: int = if n >= 1 { n - 1 } else { 0 };
    let sel_c: int = if sel <= last { sel as int } else { last };
    let back: int = if take >= 1 { take - 1 } else { 0 };
    let start: int = if sel_c >= back { sel_c - back } else { 0 };
    let end: int = if start + take <= n { start + take } else { n as int };
    (sel_c as usize, start as usize, end as usize)
}

/// The selected row (clamped), and the first and one-past-last rows shown,
/// for a table panel `height` rows tall over `n` processes.
pub fn table_window(height: u16, sel: usize, n: usize) -> (r: (usize, usize, usize))
    ensures
        r == window_spec(height, sel, n),
{
    let take: usize = if height >= 1 { (height - 1) as usize } else { 0 };
    let last: usize = if n >= 1 { n - 1 } else { 0 };
    let sel_c: usize = if sel <= last { sel } else { last };
    let back: usize = if take >= 1 { take - 1 } else { 0 };
    let start: usize = if sel_c >= back { sel_c - back } else { 0 };
    let end: usize = if take <= n - start { start + take } else { n };
    (sel_c, start, end)
}

/// The window never runs past the list or the panel, and whenever there is
/// a process and room for a row, the selected process is among those shown.
pub proof fn lemma_selection_visible(height: u16, sel: usize, n: usize)
    ensures
        ({
            let (sel_c, start, end) = window_spec(height, sel, n);
            &&& start <= end <= n
            &&& end - start <= if height >= 1 { height - 1 } else { 0 }
            &&& (n > 0 ==> sel_c < n)
            &&& (n > 0 && height >= 2 ==> start <= sel_c < end)
        }),
{
}

} // verus!
