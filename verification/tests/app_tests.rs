use syswatch::app::{
    frame_is_drawable, next_tab, poll_timeout_nanos, prev_tab, start_tab, tab_at, tick_due,
    tick_interval_ms, App, KeyCode, KeyEvent, Options, ProcSort, TabId, TickAction, CONTROL,
};

fn press(code: KeyCode) -> KeyEvent {
    KeyEvent { code, modifiers: 0, is_press: true }
}

#[test]
fn glyphs_and_titles() {
    assert_eq!(TabId::Overview.glyph(), "1");
    assert_eq!(TabId::Net.glyph(), "0");
    assert_eq!(TabId::Timeline.glyph(), "-");
    assert_eq!(TabId::Insights.glyph(), "+");
    assert_eq!(TabId::Cpu.title(), "CPU");
    assert_eq!(TabId::Fs.title(), "FS");
    assert_eq!(TabId::Services.title(), "Services");
    assert_eq!(ProcSort::Rss.label(), "rss");
    assert_eq!(ProcSort::Start.label(), "start");
}

#[test]
fn from_str_loose_accepts_names_aliases_and_glyphs() {
    assert_eq!(TabId::from_str_loose("CPU"), Some(TabId::Cpu));
    assert_eq!(TabId::from_str_loose("Mem"), Some(TabId::Memory));
    assert_eq!(TabId::from_str_loose("filesystems"), Some(TabId::Fs));
    assert_eq!(TabId::from_str_loose("Processes"), Some(TabId::Procs));
    assert_eq!(TabId::from_str_loose("network"), Some(TabId::Net));
    assert_eq!(TabId::from_str_loose("0"), Some(TabId::Net));
    assert_eq!(TabId::from_str_loose("+"), Some(TabId::Insights));
    assert_eq!(TabId::from_str_loose("=") , None);
    assert_eq!(TabId::from_str_loose(" cpu"), None);
    assert_eq!(TabId::from_str_loose(""), None);
    for i in 0..12 {
        let t = tab_at(i);
        assert_eq!(TabId::from_str_loose(t.glyph()), Some(t));
        assert_eq!(TabId::from_str_loose(t.title()), Some(t));
    }
}

#[test]
fn tab_and_backtab_wrap_around() {
    assert_eq!(next_tab(TabId::Overview), TabId::Cpu);
    assert_eq!(next_tab(TabId::Insights), TabId::Overview);
    assert_eq!(prev_tab(TabId::Overview), TabId::Insights);
    let mut t = TabId::Disks;
    for _ in 0..12 {
        t = next_tab(t);
    }
    assert_eq!(t, TabId::Disks);
    for i in 0..12 {
        let t = tab_at(i);
        assert_eq!(prev_tab(next_tab(t)), t);
        assert_eq!(next_tab(prev_tab(t)), t);
    }
}

#[test]
fn sort_cycles_through_every_mode() {
    assert_eq!(ProcSort::Cpu.next(), ProcSort::Rss);
    assert_eq!(ProcSort::Name.next(), ProcSort::Cpu);
    let mut s = ProcSort::Io;
    for _ in 0..5 {
        s = s.next();
    }
    assert_eq!(s, ProcSort::Io);
}

#[test]
fn keys_switch_tabs_pause_and_quit() {
    let mut a = App::new(TabId::Overview);
    assert!(!a.handle_key(press(KeyCode::Char('3')), None));
    assert_eq!(a.active, TabId::Memory);
    assert!(!a.handle_key(press(KeyCode::Char('=')), None));
    assert_eq!(a.active, TabId::Insights);
    assert!(!a.handle_key(press(KeyCode::Tab), None));
    assert_eq!(a.active, TabId::Overview);
    assert!(!a.handle_key(press(KeyCode::BackTab), None));
    assert_eq!(a.active, TabId::Insights);
    assert!(!a.handle_key(press(KeyCode::Char('p')), None));
    assert!(a.paused);
    assert_eq!(a.tick_action(), TickAction::MarkStale);
    assert!(!a.handle_key(press(KeyCode::Char('p')), None));
    assert_eq!(a.tick_action(), TickAction::Sample);
    assert!(!a.handle_key(press(KeyCode::Char('c')), None));
    let ctrl_c = KeyEvent { code: KeyCode::Char('c'), modifiers: CONTROL, is_press: true };
    assert!(a.handle_key(ctrl_c, None));
    let ctrl_shift_c = KeyEvent { code: KeyCode::Char('c'), modifiers: CONTROL | 1, is_press: true };
    assert!(!a.handle_key(ctrl_shift_c, None));
    assert!(a.handle_key(press(KeyCode::Char('q')), None));
    let release = KeyEvent { code: KeyCode::Char('q'), modifiers: 0, is_press: false };
    assert!(!a.handle_key(release, None));
}

#[test]
fn process_keys_only_act_on_the_procs_tab() {
    let mut a = App::new(TabId::Cpu);
    a.handle_key(press(KeyCode::Down), Some(10));
    a.handle_key(press(KeyCode::Char('s')), Some(10));
    assert_eq!(a.proc_sel, 0);
    assert_eq!(a.proc_sort, ProcSort::Cpu);

    let mut a = App::new(TabId::Procs);
    for _ in 0..5 {
        a.handle_key(press(KeyCode::Down), Some(3));
    }
    assert_eq!(a.proc_sel, 2);
    a.handle_key(press(KeyCode::Up), Some(3));
    assert_eq!(a.proc_sel, 1);
    a.handle_key(press(KeyCode::Char('s')), Some(3));
    assert_eq!(a.proc_sort, ProcSort::Rss);
    assert_eq!(a.proc_sel, 0);
    a.handle_key(press(KeyCode::Up), Some(3));
    assert_eq!(a.proc_sel, 0);
    a.handle_key(press(KeyCode::Down), None);
    assert_eq!(a.proc_sel, 0);
    a.handle_key(press(KeyCode::Down), Some(0));
    assert_eq!(a.proc_sel, 0);
}

#[test]
fn run_options() {
    let o = Options { tick_ms: 20, start_tab: Some("GPU".into()) };
    assert_eq!(start_tab(&o), TabId::Gpu);
    assert_eq!(tick_interval_ms(&o), 100);
    let o = Options { tick_ms: 1500, start_tab: Some("bogus".into()) };
    assert_eq!(start_tab(&o), TabId::Overview);
    assert_eq!(tick_interval_ms(&o), 1500);
    let o = Options { tick_ms: 1500, start_tab: None };
    assert_eq!(start_tab(&o), TabId::Overview);
    assert!(tick_due(1_000, 1_000));
    assert!(!tick_due(999, 1_000));
    assert_eq!(poll_timeout_nanos(1_000_000_000, 100_000_000), 900_000_000);
    assert_eq!(poll_timeout_nanos(1_000_000_000, 990_000_000), 33_000_000);
    assert_eq!(poll_timeout_nanos(1_000_000_000, 2_000_000_000), 33_000_000);
    assert!(frame_is_drawable(20, 6));
    assert!(!frame_is_drawable(19, 50));
    assert!(!frame_is_drawable(80, 5));
}

#[test]
fn keys_other_than_down_work_at_any_selection() {
    let mut a = App::new(TabId::Procs);
    a.proc_sel = usize::MAX;
    assert!(!a.handle_key(press(KeyCode::Tab), Some(3)));
    assert_eq!(a.active, TabId::Gpu);
    assert_eq!(a.proc_sel, usize::MAX);
    a.active = TabId::Procs;
    assert!(!a.handle_key(press(KeyCode::Up), Some(3)));
    assert_eq!(a.proc_sel, usize::MAX - 1);
    a.proc_sel = usize::MAX;
    assert!(a.handle_key(press(KeyCode::Char('q')), Some(3)));
    assert_eq!(a.proc_sel, usize::MAX);
    let released = KeyEvent { code: KeyCode::Down, modifiers: 0, is_press: false };
    assert!(!a.handle_key(released, Some(3)));
    assert_eq!(a.proc_sel, usize::MAX);
    assert!(!a.handle_key(press(KeyCode::Char('s')), Some(3)));
    assert_eq!(a.proc_sel, 0);
}
