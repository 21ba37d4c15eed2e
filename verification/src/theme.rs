//! The built-in colour themes, by name. The palettes themselves belong
//! to the terminal front end.

use vstd::prelude::*;

use crate::text::string_of;

verus! {

/// Number of built-in themes.
pub const THEME_COUNT: usize = 6;

/// Built-in theme names, in the order the settings popup cycles them.
pub open spec fn theme_names() -> Seq<Seq<char>> {
    seq!["dark"@, "light"@, "dracula"@, "nord"@, "gruvbox"@, "solarized"@]
}

/// The name of built-in theme `i`.
pub fn theme_name(i: usize) -> (s: String)
    requires
        i < THEME_COUNT,
    ensures
        s@ == theme_names()[i as int],
{
    match i {
        0 => string_of("dark"),
        1 => string_of("light"),
        2 => string_of("dracula"),
        3 => string_of("nord"),
        4 => string_of("gruvbox"),
        _ => string_of("solarized"),
    }
}

/// No two built-in themes share a name, and none is blank.
pub proof fn lemma_theme_names_distinct()
    ensures
        theme_names().len() == THEME_COUNT,
        forall|i: int, j: int|
            0 <= i < j < THEME_COUNT ==> theme_names()[i] != theme_names()[j],
        forall|i: int| 0 <= i < THEME_COUNT ==> theme_names()[i].len() > 0,
{
    reveal_strlit("dark");
    reveal_strlit("light");
    reveal_strlit("dracula");
    reveal_strlit("nord");
    reveal_strlit("gruvbox");
    reveal_strlit("solarized");
    let n = theme_names();
    assert(n[0].len() == 4 && n[1].len() == 5 && n[2].len() == 7);
    assert(n[3].len() == 4 && n[4].len() == 7 && n[5].len() == 9);
    assert(n[0][0] != n[3][0]);
    assert(n[2][0] != n[4][0]);
}

} // verus!
