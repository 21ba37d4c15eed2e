use syswatch::config::SyswatchConfig;
use syswatch::settings::{
    apply_edit, build_rows, cursor, cycle_next, cycle_prev, edit_value, footer_hints, is_enum_row,
    popup_area, row_value_display, tab_name, FooterHints, TAB_COUNT,
};
use syswatch::theme::{theme_name, THEME_COUNT};

fn cfg() -> SyswatchConfig {
    SyswatchConfig::default()
}

#[test]
fn cycle_theme_walks_full_list() {
    let mut c = cfg();
    let start = c.theme.clone();
    for _ in 0..THEME_COUNT {
        cycle_next(&mut c, cursor::THEME);
    }
    assert_eq!(c.theme, start, "full cycle should return to start");
}

#[test]
fn cycle_graph_style_toggles() {
    let mut c = cfg();
    assert_eq!(c.graph_style, "bars");
    cycle_next(&mut c, cursor::GRAPH_STYLE);
    assert_eq!(c.graph_style, "dots");
    cycle_next(&mut c, cursor::GRAPH_STYLE);
    assert_eq!(c.graph_style, "bars");
}

#[test]
fn cycle_prev_theme_walks_backwards() {
    let mut c = cfg();
    cycle_next(&mut c, cursor::THEME);
    let after_next = c.theme.clone();
    cycle_prev(&mut c, cursor::THEME);
    assert_eq!(c.theme, "dark", "prev from second theme returns to dark");
    cycle_next(&mut c, cursor::THEME);
    assert_eq!(c.theme, after_next);
}

#[test]
fn cycle_default_tab_visits_every_tab() {
    let mut c = cfg();
    let mut seen = Vec::new();
    for _ in 0..TAB_COUNT {
        cycle_next(&mut c, cursor::DEFAULT_TAB);
        seen.push(c.default_tab.clone());
    }
    let mut sorted = seen.clone();
    sorted.sort();
    let mut expected: Vec<String> = (0..TAB_COUNT).map(tab_name).collect();
    expected.sort();
    assert_eq!(sorted, expected);
}

#[test]
fn apply_edit_tick_accepts_in_range() {
    let mut c = cfg();
    assert!(apply_edit(&mut c, cursor::TICK_MS, "500").is_ok());
    assert_eq!(c.tick_ms, 500);
}

#[test]
fn apply_edit_tick_rejects_out_of_range() {
    let mut c = cfg();
    assert!(apply_edit(&mut c, cursor::TICK_MS, "50").is_err());
    assert!(apply_edit(&mut c, cursor::TICK_MS, "10000").is_err());
    assert!(apply_edit(&mut c, cursor::TICK_MS, "abc").is_err());
    assert_eq!(c.tick_ms, 1000);
}

#[test]
fn apply_edit_enum_row_returns_helpful_error() {
    let mut c = cfg();
    let err = apply_edit(&mut c, cursor::THEME, "dracula").unwrap_err();
    assert!(err.contains("←") || err.contains("cycle"));
}

#[test]
fn edit_value_returns_current_tick() {
    let c = SyswatchConfig {
        tick_ms: 750,
        ..Default::default()
    };
    assert_eq!(edit_value(&c, cursor::TICK_MS), "750");
}

#[test]
fn apply_edit_messages_and_trimming() {
    let mut c = cfg();
    assert_eq!(
        apply_edit(&mut c, cursor::TICK_MS, "abc").unwrap_err(),
        "Tick must be a positive integer"
    );
    assert_eq!(
        apply_edit(&mut c, cursor::TICK_MS, "99").unwrap_err(),
        "Tick must be between 100 and 5000 ms"
    );
    assert_eq!(
        apply_edit(&mut c, cursor::GRAPH_STYLE, "dots").unwrap_err(),
        "This row is enum-only — use ←/→ to cycle."
    );
    assert_eq!(c.tick_ms, 1000);
    assert!(apply_edit(&mut c, cursor::TICK_MS, "  +250\t").is_ok());
    assert_eq!(c.tick_ms, 250);
    assert!(apply_edit(&mut c, cursor::TICK_MS, "-250").is_err());
    assert!(apply_edit(&mut c, cursor::TICK_MS, "").is_err());
    assert!(apply_edit(&mut c, cursor::TICK_MS, "5000").is_ok());
    assert_eq!(c.tick_ms, 5000);
    assert!(apply_edit(&mut c, cursor::TICK_MS, "99999999999999999999999").is_err());
    assert_eq!(c.tick_ms, 5000);
}

#[test]
fn edit_value_round_trips_through_apply_edit() {
    let mut c = SyswatchConfig {
        tick_ms: 4321,
        ..Default::default()
    };
    let text = edit_value(&c, cursor::TICK_MS);
    assert_eq!(text, "4321");
    assert!(apply_edit(&mut c, cursor::TICK_MS, &text).is_ok());
    assert_eq!(c.tick_ms, 4321);
    assert_eq!(edit_value(&c, cursor::THEME), "");
}

#[test]
fn cycle_prev_undoes_cycle_next_on_every_row() {
    for row in 0..4 {
        let mut c = SyswatchConfig {
            theme: "nord".into(),
            graph_style: "dots".into(),
            default_tab: "timeline".into(),
            tick_ms: 300,
        };
        cycle_next(&mut c, row);
        cycle_prev(&mut c, row);
        assert_eq!(c.theme, "nord");
        assert_eq!(c.graph_style, "dots");
        assert_eq!(c.default_tab, "timeline");
        assert_eq!(c.tick_ms, 300);
    }
}

#[test]
fn cycling_an_unknown_value_starts_from_the_first() {
    let mut c = SyswatchConfig {
        theme: "mystery".into(),
        graph_style: "lines".into(),
        default_tab: "nowhere".into(),
        tick_ms: 300,
    };
    cycle_next(&mut c, cursor::THEME);
    assert_eq!(c.theme, theme_name(1));
    cycle_next(&mut c, cursor::GRAPH_STYLE);
    assert_eq!(c.graph_style, "bars");
    cycle_prev(&mut c, cursor::DEFAULT_TAB);
    assert_eq!(c.default_tab, "insights");
    let mut d = c.clone();
    d.theme = "mystery".into();
    cycle_prev(&mut d, cursor::THEME);
    assert_eq!(d.theme, theme_name(THEME_COUNT - 1));
    cycle_next(&mut d, cursor::TICK_MS);
    assert_eq!(d.tick_ms, 300);
}

#[test]
fn rows_show_the_config() {
    let c = SyswatchConfig {
        theme: "gruvbox".into(),
        graph_style: "dots".into(),
        default_tab: "net".into(),
        tick_ms: 1250,
    };
    let rows = build_rows(&c);
    assert_eq!(rows.len(), 4);
    assert_eq!(rows[0].label, "Theme");
    assert_eq!(rows[0].value, "gruvbox");
    assert_eq!(rows[1].label, "Graph Style");
    assert_eq!(rows[2].value, "net");
    assert_eq!(rows[3].label, "Tick (ms)");
    assert_eq!(rows[3].value, "1250");
    assert!(is_enum_row(cursor::THEME));
    assert!(is_enum_row(cursor::DEFAULT_TAB));
    assert!(!is_enum_row(cursor::TICK_MS));
    assert!(!is_enum_row(7));
}

#[test]
fn popup_is_centred_and_bounded() {
    assert_eq!(popup_area(0, 0, 100, 40), (20, 14, 60, 11));
    assert_eq!(popup_area(10, 5, 40, 10), (12, 7, 36, 6));
    assert_eq!(popup_area(0, 0, 200, 50), (40, 19, 120, 11));
    assert_eq!(popup_area(0, 0, 2, 2), (1, 1, 0, 0));
}

#[test]
fn row_values_show_cursor_state() {
    assert_eq!(row_value_display("dark", 0, 0, false, ""), "◀ dark ▶");
    assert_eq!(row_value_display("dark", 0, 1, false, ""), "dark");
    assert_eq!(row_value_display("dark", 0, 0, true, "ma"), "ma▏");
    assert_eq!(row_value_display("250", 3, 3, false, ""), "250");
    assert_eq!(row_value_display("250", 3, 3, true, "3"), "3▏");
    assert_eq!(row_value_display("250", 3, 0, true, "3"), "250");
}

#[test]
fn footer_hints_follow_state() {
    assert_eq!(footer_hints(true, cursor::THEME), FooterHints::Editing);
    assert_eq!(footer_hints(false, cursor::DEFAULT_TAB), FooterHints::Cycle);
    assert_eq!(footer_hints(false, cursor::TICK_MS), FooterHints::Edit);
}
