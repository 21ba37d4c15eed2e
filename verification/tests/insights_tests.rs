use syswatch::app::TabId;
use syswatch::insights::{
    insight_zombie_party, largest_rss, rank_insights, swap_thrash, Insight, ProcState, Severity,
    MIB,
};

fn ins(severity: Severity, title: &str) -> Insight {
    Insight { severity, title: title.to_string(), body: vec!["b".to_string()], suggested_tab: TabId::Cpu }
}

#[test]
fn severity_labels() {
    assert_eq!(Severity::Info.label(), "INFO");
    assert_eq!(Severity::Warn.label(), "WARN");
    assert_eq!(Severity::Crit.label(), "CRIT");
}

#[test]
fn ranking_is_stable_most_severe_first_and_capped() {
    let found = vec![
        ins(Severity::Warn, "w1"),
        ins(Severity::Info, "i1"),
        ins(Severity::Crit, "c1"),
        ins(Severity::Warn, "w2"),
        ins(Severity::Crit, "c2"),
        ins(Severity::Info, "i2"),
        ins(Severity::Warn, "w3"),
    ];
    let r = rank_insights(found);
    let titles: Vec<&str> = r.iter().map(|i| i.title.as_str()).collect();
    assert_eq!(titles, vec!["c1", "c2", "w1", "w2", "w3", "i1"]);
    assert_eq!(r[0].body, vec!["b".to_string()]);
    assert!(rank_insights(Vec::new()).is_empty());
}

#[test]
fn swap_thrash_levels() {
    let mut h = vec![100 * MIB; 10];
    assert!(swap_thrash(&h).is_none());
    h[9] = 210 * MIB;
    let t = swap_thrash(&h).expect("warn");
    assert_eq!(t.severity, Severity::Warn);
    assert_eq!(t.growth, 110 * MIB);
    assert_eq!(t.window, 10);
    h[9] = 700 * MIB;
    assert_eq!(swap_thrash(&h).unwrap().severity, Severity::Crit);
    let short = vec![0, 0, 0, 0, 0, 0, 900 * MIB];
    assert!(swap_thrash(&short).is_none());
    let mut long = vec![0u64; 40];
    long[10] = 1000 * MIB;
    long[39] = 1100 * MIB;
    let t = swap_thrash(&long).unwrap();
    assert_eq!(t.window, 30);
    assert_eq!(t.growth, 100 * MIB);
    let mut small = vec![0u64; 10];
    small[9] = 60 * MIB;
    assert!(swap_thrash(&small).is_none());
}

#[test]
fn largest_rss_picks_last_of_equals() {
    assert_eq!(largest_rss(&vec![]), None);
    assert_eq!(largest_rss(&vec![5, 9, 3, 9, 1]), Some(3));
    assert_eq!(largest_rss(&vec![7]), Some(0));
}

fn procs(zombie_parents: &[u32], others: usize) -> Vec<ProcState> {
    let mut v: Vec<ProcState> = zombie_parents.iter().map(|p| ProcState { state: 'Z', ppid: *p }).collect();
    for i in 0..others {
        v.push(ProcState { state: 'S', ppid: i as u32 });
    }
    v
}

#[test]
fn zombie_party_thresholds_and_parents() {
    assert!(insight_zombie_party(&procs(&[1, 2, 3, 4], 50)).is_none());
    let i = insight_zombie_party(&procs(&[90, 7, 7, 300, 12, 7, 45, 8], 3)).expect("party");
    assert_eq!(i.severity, Severity::Warn);
    assert_eq!(i.title, "8 zombie processes — parent isn't reaping");
    assert_eq!(i.body[0], "Common parent pids: 7, 8, 12, 45, 90");
    assert_eq!(
        i.body[1],
        "Restart the parent or send it SIGCHLD; zombies hold no resources but indicate a bug."
    );
    assert_eq!(i.suggested_tab, TabId::Procs);
    let many: Vec<u32> = (0..25).map(|_| 1).collect();
    let i = insight_zombie_party(&procs(&many, 0)).expect("party");
    assert_eq!(i.severity, Severity::Crit);
    assert_eq!(i.body[0], "Common parent pids: 1");
}
