use syswatch::config::SyswatchConfig;

#[test]
fn defaults_are_stable() {
    let c = SyswatchConfig::default();
    assert_eq!(c.theme, "dark");
    assert_eq!(c.graph_style, "bars");
    assert_eq!(c.default_tab, "overview");
    assert_eq!(c.tick_ms, 1000);
}

#[test]
fn validate_clamps_tick_ms() {
    let mut c = SyswatchConfig {
        tick_ms: 50,
        ..Default::default()
    };
    c.validate();
    assert_eq!(c.tick_ms, 100);

    c.tick_ms = 10_000;
    c.validate();
    assert_eq!(c.tick_ms, 5000);
}

#[test]
fn validate_fills_empty_strings() {
    let mut c = SyswatchConfig {
        theme: "".into(),
        graph_style: "".into(),
        default_tab: "".into(),
        tick_ms: 1000,
    };
    c.validate();
    assert_eq!(c.theme, "dark");
    assert_eq!(c.graph_style, "bars");
    assert_eq!(c.default_tab, "overview");
}

#[test]
fn validate_preserves_valid_values() {
    let mut c = SyswatchConfig {
        theme: "dracula".into(),
        graph_style: "dots".into(),
        default_tab: "cpu".into(),
        tick_ms: 500,
    };
    let before = c.clone();
    c.validate();
    assert_eq!(c.theme, before.theme);
    assert_eq!(c.graph_style, before.graph_style);
    assert_eq!(c.default_tab, before.default_tab);
    assert_eq!(c.tick_ms, before.tick_ms);
}

#[test]
fn validate_twice_is_validate_once() {
    let mut c = SyswatchConfig {
        theme: "".into(),
        graph_style: "dots".into(),
        default_tab: "".into(),
        tick_ms: 99,
    };
    c.validate();
    let once = c.clone();
    c.validate();
    assert_eq!(c.theme, once.theme);
    assert_eq!(c.graph_style, "dots");
    assert_eq!(c.default_tab, once.default_tab);
    assert_eq!(c.tick_ms, 100);
    assert_eq!(once.tick_ms, 100);
}

#[test]
fn validate_keeps_bounds() {
    let mut c = SyswatchConfig {
        tick_ms: 5000,
        ..Default::default()
    };
    c.validate();
    assert_eq!(c.tick_ms, 5000);
    c.tick_ms = 100;
    c.validate();
    assert_eq!(c.tick_ms, 100);
    c.tick_ms = u64::MAX;
    c.validate();
    assert_eq!(c.tick_ms, 5000);
}
