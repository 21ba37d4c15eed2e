//! Heuristic anomaly detection over the rolling session.
//!
//! Each rule reads the session history and the latest snapshot and may
//! produce an `Insight`; `rank_insights` orders what the rules found,
//! most severe first, and keeps the first six. Rules that weigh
//! fractional quantities (CPU %, load averages, fill ratios) run in the
//! front end; the integer ones and the ranking live here.

use vstd::prelude::*;

use crate::app::TabId;
use crate::num::{decimal, push_decimal};
use crate::text::{chars_of, push_str, string_from_chars, string_of};

verus! {

#[derive(Debug, Clone, Copy, PartialEq, Eq, PartialOrd, Ord, Structural)]
pub enum Severity {
    Info,
    Warn,
    Crit,
}

/// Info < Warn < Crit.
pub open spec fn severity_rank(s: Severity) -> int {
    match s {
        Severity::Info => 0,
        Severity::Warn => 1,
        Severity::Crit => 2,
    }
}

pub open spec fn severity_label(s: Severity) -> Seq<char> {
    match s {
        Severity::Info => "INFO"@,
        Severity::Warn => "WARN"@,
        Severity::Crit => "CRIT"@,
    }
}

impl Severity {
    /// The badge shown on the insight card.
    pub fn label(self) -> (r: &'static str)
        ensures
            r@ == severity_label(self),
    {
        match self {
            Severity::Info => "INFO",
            Severity::Warn => "WARN",
            Severity::Crit => "CRIT",
        }
    }
}

/// One finding: how bad, a headline, detail lines, and the tab to look at.
#[derive(Debug, Clone)]
pub struct Insight {
    pub severity: Severity,
    pub title: String,
    pub body: Vec<String>,
    pub suggested_tab: TabId,
}

pub struct InsightView {
    pub severity: Severity,
    pub title: Seq<char>,
    pub body: Seq<Seq<char>>,
    pub suggested_tab: TabId,
}

impl View for Insight {
    type V = InsightView;

    open spec fn view(&self) -> InsightView {
        InsightView {
            severity: self.severity,
            title: self.title@,
            body: self.body.deep_view(),
            suggested_tab: self.suggested_tab,
        }
    }
}

pub open spec fn insight_views(s: Seq<Insight>) -> Seq<InsightView> {
    s.map_values(|i: Insight| i@)
}

impl Insight {
    /// A field-by-field copy.
    pub fn duplicate(&self) -> (r: Insight)
        ensures
            r@ == self@,
    {
        let mut body: Vec<String> = Vec::new();
        let n = self.body.len();
        for i in 0..n
            invariant
                n == self.body.len(),
                body.deep_view() =~= self.body.deep_view().take(i as int),
        {
            let ghost before = body.deep_view();
            body.push(self.body[i].clone());
            assert(self.body.deep_view()[i as int] == self.body@[i as int]@);
            assert(body.deep_view() =~= before.push(self.body@[i as int]@));
        }
        assert(self.body.deep_view().take(n as int) =~= self.body.deep_view());
        Insight {
            severity: self.severity,
            title: self.title.clone(),
            body,
            suggested_tab: self.suggested_tab,
        }
    }
}

// ───────────────────────── ranking ─────────────────────────

/// Most insight cards shown at once.
pub const MAX_INSIGHTS: usize = 6;

/// The insights of severity `sev`, in the order they were given.
pub open spec fn of_severity(s: Seq<InsightView>, sev: Severity) -> Seq<InsightView>
    decreases s.len(),
{
    if s.len() == 0 {
        Seq::empty()
    } else if s.last().severity == sev {
        of_severity(s.drop_last(), sev).push(s.last())
    } else {
        of_severity(s.drop_last(), sev)
    }
}

/// The stable sort by severity, most severe first: the critical ones,
/// then the warnings, then the rest, each group in the order it was given.
pub open spec fn by_severity(s: Seq<InsightView>) -> Seq<InsightView> {
    of_severity(s, Severity::Crit) + of_severity(s, Severity::Warn) + of_severity(
        s,
        Severity::Info,
    )
}

/// What `rank_insights` returns: the stable sort, cut to six cards.
pub open spec fn ranked(s: Seq<InsightView>) -> Seq<InsightView> {
    let b = by_severity(s);
    if b.len() > MAX_INSIGHTS {
        b.take(MAX_INSIGHTS as int)
    } else {
        b
    }
}

fn push_of_severity(out: &mut Vec<Insight>, found: &Vec<Insight>, sev: Severity)
    ensures
        insight_views(final(out)@) == insight_views(old(out)@) + of_severity(
            insight_views(found@),
            sev,
        ),
{
    let n = found.len();
    let ghost start = insight_views(out@);
    let ghost all = insight_views(found@);
    for i in 0..n
        invariant
            n == found.len(),
            all == insight_views(found@),
            insight_views(out@) == start + of_severity(all.take(i as int), sev),
    {
        let ghost before = insight_views(out@);
        assert(all.take(i + 1).drop_last() =~= all.take(i as int));
        assert(all.take(i + 1).last() == found@[i as int]@);
        if found[i].severity == sev {
            let d = found[i].duplicate();
            let ghost prev = out@;
            out.push(d);
            assert(insight_views(out@) =~= insight_views(prev).push(found@[i as int]@));
            assert(insight_views(out@) =~= start + of_severity(all.take(i + 1), sev));
        } else {
            assert(insight_views(out@) =~= start + of_severity(all.take(i + 1), sev));
        }
    }
    assert(all.take(n as int) =~= all);
}

/// Most severe first (stable among equals), capped at six cards.
pub fn rank_insights(found: Vec<Insight>) -> (r: Vec<Insight>)
    ensures
        insight_views(r@) == ranked(insight_views(found@)),
{
    let mut out: Vec<Insight> = Vec::new();
    assert(insight_views(out@) =~= Seq::<InsightView>::empty());
    push_of_severity(&mut out, &found, Severity::Crit);
    push_of_severity(&mut out, &found, Severity::Warn);
    push_of_severity(&mut out, &found, Severity::Info);
    let ghost all = insight_views(found@);
    assert(insight_views(out@) =~= by_severity(all));
    if out.len() > MAX_INSIGHTS {
        out.truncate(MAX_INSIGHTS);
        assert(insight_views(out@) =~= by_severity(all).take(MAX_INSIGHTS as int));
    }
    out
}

proof fn lemma_of_severity_members(s: Seq<InsightView>, sev: Severity)
    ensures
        forall|i: int|
            0 <= i < of_severity(s, sev).len() ==> (#[trigger] of_severity(s, sev)[i]).severity
                == sev && s.contains(of_severity(s, sev)[i]),
    decreases s.len(),
{
    if s.len() > 0 {
        lemma_of_severity_members(s.drop_last(), sev);
        let sub = of_severity(s.drop_last(), sev);
        assert forall|i: int| 0 <= i < of_severity(s, sev).len() implies (
        #[trigger] of_severity(s, sev)[i]).severity == sev && s.contains(of_severity(s, sev)[i]) by {
            if i < sub.len() {
                assert(s.drop_last().contains(sub[i]));
                let j = choose|j: int| 0 <= j < s.drop_last().len() && s.drop_last()[j] == sub[i];
                assert(s[j] == sub[i]);
            } else {
                assert(s[s.len() - 1] == s.last());
            }
        }
    }
}

proof fn lemma_of_severity_len(s: Seq<InsightView>)
    ensures
        of_severity(s, Severity::Crit).len() + of_severity(s, Severity::Warn).len() + of_severity(
            s,
            Severity::Info,
        ).len() == s.len(),
    decreases s.len(),
{
    if s.len() > 0 {
        lemma_of_severity_len(s.drop_last());
    }
}

/// Ranking keeps every finding up to the six-card cap, puts the more
/// severe ones first, and shows only what the rules found.
pub proof fn lemma_ranking(s: Seq<InsightView>)
    ensures
        by_severity(s).len() == s.len(),
        ranked(s).len() == if s.len() > MAX_INSIGHTS {
            MAX_INSIGHTS as int
        } else {
            s.len() as int
        },
        forall|i: int, j: int|
            0 <= i < j < ranked(s).len() ==> severity_rank(#[trigger] ranked(s)[i].severity)
                >= severity_rank(#[trigger] ranked(s)[j].severity),
        forall|i: int| 0 <= i < ranked(s).len() ==> s.contains(#[trigger] ranked(s)[i]),
{
    lemma_of_severity_len(s);
    lemma_of_severity_members(s, Severity::Crit);
    lemma_of_severity_members(s, Severity::Warn);
    lemma_of_severity_members(s, Severity::Info);
    let c = of_severity(s, Severity::Crit);
    let w = of_severity(s, Severity::Warn);
    let f = of_severity(s, Severity::Info);
    let b = by_severity(s);
    assert forall|i: int| 0 <= i < b.len() implies (#[trigger] b[i]).severity == (if i < c.len() {
        Severity::Crit
    } else if i < c.len() + w.len() {
        Severity::Warn
    } else {
        Severity::Info
    }) && s.contains(b[i]) by {
        if i < c.len() {
            assert(b[i] == c[i]);
        } else if i < c.len() + w.len() {
            assert(b[i] == w[i - c.len()]);
        } else {
            assert(b[i] == f[i - c.len() - w.len()]);
        }
    }
    assert forall|i: int| 0 <= i < ranked(s).len() implies #[trigger] ranked(s)[i] == b[i] by {}
}

// ───────────────────────── swap thrash ─────────────────────────

pub const MIB: u64 = 1024 * 1024;

/// Swap growth between the newest sample and the one ~30 ticks before.
#[derive(Debug, Clone, Copy)]
pub struct SwapTrend {
    pub severity: Severity,
    /// Swap in use now, bytes.
    pub now: u64,
    /// Growth over the window, bytes.
    pub growth: u64,
    /// Length of the window, in ticks.
    pub window: usize,
}

/// Swap usage growing meaningfully over the rolling window: at least 8
/// samples, at least 64 MiB swapped now, and growth against the sample
/// 30 ticks back (or the oldest) of 100 MiB (warn) or 512 MiB (crit).
pub open spec fn swap_trend(h: Seq<u64>) -> Option<SwapTrend> {
    if h.len() < 8 {
        None
    } else {
        let now = h.last();
        if now < 64 * MIB {
            None
        } else {
            let base_idx: int = if h.len() >= 30 {
                h.len() - 30
            } else {
                0
            };
            let growth: u64 = if now >= h[base_idx] {
                (now - h[base_idx]) as u64
            } else {
                0
            };
            let window = (h.len() - base_idx) as usize;
            if growth >= 512 * MIB {
                Some(SwapTrend { severity: Severity::Crit, now, growth, window })
            } else if growth >= 100 * MIB {
                Some(SwapTrend { severity: Severity::Warn, now, growth, window })
            } else {
                None
            }
        }
    }
}

/// The swap-thrash rule over the swap-used history (bytes, oldest first).
pub fn swap_thrash(history: &Vec<u64>) -> (r: Option<SwapTrend>)
    ensures
        r == swap_trend(history@),
{
    let n = history.len();
    if n < 8 {
        return None;
    }
    let now = history[n - 1];
    if now < 64 * MIB {
        return None;
    }
    let base_idx = if n >= 30 {
        n - 30
    } else {
        0
    };
    let baseline = history[base_idx];
    let growth = if now >= baseline {
        now - baseline
    } else {
        0
    };
    let window = n - base_idx;
    if growth >= 512 * MIB {
        Some(SwapTrend { severity: Severity::Crit, now, growth, window })
    } else if growth >= 100 * MIB {
        Some(SwapTrend { severity: Severity::Warn, now, growth, window })
    } else {
        None
    }
}

/// Index of the process with the largest resident set; the last one when
/// several tie (as `max_by_key` picks).
pub open spec fn largest_from(rss: Seq<u64>, k: int) -> Option<int>
    decreases k,
{
    if k <= 0 {
        None
    } else {
        match largest_from(rss, k - 1) {
            None => Some(k - 1),
            Some(b) => if rss[k - 1] >= rss[b] {
                Some(k - 1)
            } else {
                Some(b)
            },
        }
    }
}

proof fn lemma_largest_from_range(rss: Seq<u64>, k: int)
    ensures
        largest_from(rss, k) matches Some(b) ==> 0 <= b < k,
        k > 0 ==> largest_from(rss, k) is Some,
    decreases k,
{
    if k > 0 {
        lemma_largest_from_range(rss, k - 1);
    }
}

/// Index of the largest resident set size in `rss` (the last of equals).
pub fn largest_rss(rss: &Vec<u64>) -> (r: Option<usize>)
    ensures
        r == match largest_from(rss@, rss@.len() as int) {
            Some(i) => Some(i as usize),
            None => None::<usize>,
        },
        r matches Some(i) ==> i < rss@.len() && forall|j: int| 0 <= j < rss@.len() ==> rss@[j]
            <= rss@[i as int],
{
    let n = rss.len();
    let mut best: Option<usize> = None;
    for k in 0..n
        invariant
            n == rss.len(),
            best == match largest_from(rss@, k as int) {
                Some(i) => Some(i as usize),
                None => None::<usize>,
            },
            best matches Some(b) ==> b < k && forall|j: int| 0 <= j < k ==> rss@[j] <= rss@[b as int],
            best is None ==> k == 0,
    {
        proof {
            lemma_largest_from_range(rss@, k as int);
            lemma_largest_from_range(rss@, k + 1);
        }
        best = match best {
            None => Some(k),
            Some(b) => if rss[k] >= rss[b] {
                Some(k)
            } else {
                Some(b)
            },
        };
    }
    best
}

// ───────────────────────── zombie party ─────────────────────────

/// What the zombie rule reads of a process.
#[derive(Debug, Clone, Copy)]
pub struct ProcState {
    /// One-letter process state ('R', 'S', 'Z', ...).
    pub state: char,
    pub ppid: u32,
}

/// The parent pids of the zombies among the first `k` processes.
pub open spec fn zombie_ppids(p: Seq<ProcState>, k: int) -> Seq<u32>
    decreases k,
{
    if k <= 0 {
        Seq::empty()
    } else if p[k - 1].state == 'Z' {
        zombie_ppids(p, k - 1).push(p[k - 1].ppid)
    } else {
        zombie_ppids(p, k - 1)
    }
}

pub open spec fn strictly_increasing(r: Seq<u32>) -> bool {
    forall|i: int, j: int| 0 <= i < j < r.len() ==> r[i] < r[j]
}

/// `r` is what sorting `zs`, dropping duplicates and keeping the first
/// five gives: the (up to) five smallest distinct values, ascending.
pub open spec fn common_parents(zs: Seq<u32>, r: Seq<u32>) -> bool {
    &&& strictly_increasing(r)
    &&& r.len() <= 5
    &&& forall|i: int| 0 <= i < r.len() ==> zs.contains(#[trigger] r[i])
    &&& r.len() == if zs.to_set().len() < 5 {
        zs.to_set().len()
    } else {
        5
    }
    &&& forall|x: u32| #[trigger] zs.contains(x) && !r.contains(x) ==> r.len() == 5 && x > r[4]
}

/// Decimal pids separated by ", ".
pub open spec fn join_pids(r: Seq<u32>) -> Seq<char>
    decreases r.len(),
{
    if r.len() == 0 {
        Seq::empty()
    } else if r.len() == 1 {
        decimal(r[0] as nat)
    } else {
        join_pids(r.drop_last()) + ", "@ + decimal(r.last() as nat)
    }
}

pub open spec fn zombie_title(count: nat) -> Seq<char> {
    decimal(count) + " zombie processes — parent isn't reaping"@
}

pub open spec fn zombie_advice() -> Seq<char> {
    "Restart the parent or send it SIGCHLD; zombies hold no resources but indicate a bug."@
}

/// Inserts `x` into the strictly increasing `l`, unless it is there.
fn insert_sorted(l: &mut Vec<u32>, x: u32)
    requires
        strictly_increasing(old(l)@),
    ensures
        strictly_increasing(final(l)@),
        final(l)@.to_set() == old(l)@.to_set().insert(x),
        final(l)@.len() <= old(l)@.len() + 1,
{
    let n = l.len();
    let mut i: usize = 0;
    while i < n && l[i] < x
        invariant
            n == l.len(),
            i <= n,
            forall|j: int| 0 <= j < i ==> l@[j] < x,
        decreases n - i,
    {
        i = i + 1;
    }
    if i < n && l[i] == x {
        assert(l@.to_set().insert(x) =~= l@.to_set()) by {
            assert(l@.contains(x)) by {
                assert(l@[i as int] == x);
            }
        }
        return;
    }
    let ghost old_l = l@;
    l.insert(i, x);
    assert(l@ == old_l.insert(i as int, x));
    assert forall|a: int, b: int| 0 <= a < b < l@.len() implies l@[a] < l@[b] by {
        if b < i {
        } else if a > i {
            assert(l@[a] == old_l[a - 1]);
            assert(l@[b] == old_l[b - 1]);
        } else if a == i {
            assert(l@[b] == old_l[b - 1]);
            assert(old_l[i as int] >= x);
            if b - 1 > i {
                assert(old_l[i as int] < old_l[b - 1]);
            }
        } else {
            if b == i {
            } else {
                assert(l@[b] == old_l[b - 1]);
                assert(old_l[a] < x);
                assert(old_l[i as int] >= x);
            }
        }
    }
    assert(l@.to_set() =~= old_l.to_set().insert(x)) by {
        assert forall|y: u32| l@.to_set().contains(y) <==> old_l.to_set().insert(x).contains(y) by {
            if l@.contains(y) {
                let k = choose|k: int| 0 <= k < l@.len() && l@[k] == y;
                if k < i {
                    assert(old_l[k] == y);
                } else if k > i {
                    assert(old_l[k - 1] == y);
                }
            }
            if old_l.contains(y) {
                let k = choose|k: int| 0 <= k < old_l.len() && old_l[k] == y;
                if k < i {
                    assert(l@[k] == y);
                } else {
                    assert(l@[k + 1] == y);
                }
            }
            if y == x {
                assert(l@[i as int] == x);
            }
        }
    }
}

proof fn lemma_increasing_no_dup_len(l: Seq<u32>)
    requires
        strictly_increasing(l),
    ensures
        l.to_set().len() == l.len(),
{
    assert(l.no_duplicates()) by {
        assert forall|i: int, j: int| 0 <= i < l.len() && 0 <= j < l.len() && i != j implies l[i]
            != l[j] by {
            if i < j {
                assert(l[i] < l[j]);
            } else {
                assert(l[j] < l[i]);
            }
        }
    }
    l.unique_seq_to_set();
}

/// More than a handful of zombie processes — a parent isn't reaping.
/// Five or more zombies warn, 25 or more are critical; the body lists up
/// to five parent pids, smallest first.
pub fn insight_zombie_party(procs: &Vec<ProcState>) -> (r: Option<Insight>)
    ensures
        ({
            let zs = zombie_ppids(procs@, procs@.len() as int);
            if zs.len() < 5 {
                r is None
            } else {
                r matches Some(i) && i.severity == (if zs.len() >= 25 {
                    Severity::Crit
                } else {
                    Severity::Warn
                }) && i.title@ == zombie_title(zs.len()) && i.suggested_tab == TabId::Procs
                    && i.body@.len() == 2 && (exists|ps: Seq<u32>|
                    common_parents(zs, ps) && #[trigger] i.body@[0]@ == "Common parent pids: "@
                        + join_pids(ps)) && i.body@[1]@ == zombie_advice()
            }
        }),
{
    let n = procs.len();
    let mut count: usize = 0;
    let mut parents: Vec<u32> = Vec::new();
    let ghost mut zs: Seq<u32> = Seq::empty();
    for k in 0..n
        invariant
            n == procs.len(),
            zs == zombie_ppids(procs@, k as int),
            count == zs.len(),
            count <= k,
            strictly_increasing(parents@),
            parents@.to_set() == zs.to_set(),
    {
        if procs[k].state == 'Z' {
            insert_sorted(&mut parents, procs[k].ppid);
            count = count + 1;
            proof {
                let old_zs = zs;
                zs = zs.push(procs@[k as int].ppid);
                assert(zs.to_set() =~= old_zs.to_set().insert(procs@[k as int].ppid)) by {
                    assert forall|y: u32| zs.contains(y) <==> old_zs.contains(y) || y == procs@[k as int].ppid by {
                        if zs.contains(y) {
                            let j = choose|j: int| 0 <= j < zs.len() && zs[j] == y;
                            if j < old_zs.len() {
                                assert(old_zs[j] == y);
                            }
                        }
                        if old_zs.contains(y) {
                            let j = choose|j: int| 0 <= j < old_zs.len() && old_zs[j] == y;
                            assert(zs[j] == y);
                        }
                        if y == procs@[k as int].ppid {
                            assert(zs[old_zs.len() as int] == y);
                        }
                    }
                }
            }
        }
    }
    if count < 5 {
        return None;
    }
    let severity = if count >= 25 {
        Severity::Crit
    } else {
        Severity::Warn
    };
    let ghost all = parents@;
    proof {
        lemma_increasing_no_dup_len(all);
    }
    if parents.len() > 5 {
        parents.truncate(5);
    }
    let ghost ps = parents@;
    proof {
        assert(ps =~= if all.len() > 5 { all.take(5) } else { all });
        assert forall|i: int| 0 <= i < ps.len() implies zs.contains(#[trigger] ps[i]) by {
            assert(all.to_set().contains(ps[i]));
            assert(zs.to_set().contains(ps[i]));
        }
        assert forall|x: u32| #[trigger] zs.contains(x) && !ps.contains(x) implies ps.len() == 5
            && x > ps[4] by {
            assert(zs.to_set().contains(x));
            assert(all.to_set().contains(x));
            let j = choose|j: int| 0 <= j < all.len() && all[j] == x;
            if j < 5 && j < ps.len() {
                assert(ps[j] == x);
            }
            assert(all.len() > 5);
            assert(all[4] < all[j]);
        }
    }
    let mut title = chars_of("");
    proof {
        reveal_strlit("");
        assert(title@ =~= Seq::<char>::empty());
    }
    push_decimal(&mut title, count as u64);
    push_str(&mut title, " zombie processes — parent isn't reaping");
    let mut line = chars_of("Common parent pids: ");
    let ghost prefix = line@;
    let m = parents.len();
    for i in 0..m
        invariant
            m == parents.len(),
            parents@ == ps,
            line@ == prefix + join_pids(ps.take(i as int)),
    {
        let ghost before = line@;
        if i > 0 {
            push_str(&mut line, ", ");
        }
        push_decimal(&mut line, parents[i] as u64);
        proof {
            let t = ps.take(i + 1);
            assert(t.drop_last() =~= ps.take(i as int));
            if i == 0 {
                assert(t.len() == 1);
                assert(line@ =~= prefix + join_pids(t));
            } else {
                assert(line@ =~= prefix + join_pids(t));
            }
        }
    }
    assert(ps.take(m as int) =~= ps);
    let mut body: Vec<String> = Vec::new();
    body.push(string_from_chars(&line));
    body.push(
        string_of(
            "Restart the parent or send it SIGCHLD; zombies hold no resources but indicate a bug.",
        ),
    );
    let r = Insight {
        severity,
        title: string_from_chars(&title),
        body,
        suggested_tab: TabId::Procs,
    };
    assert(common_parents(zs, ps));
    assert(r.body@[0]@ == "Common parent pids: "@ + join_pids(ps));
    Some(r)
}

proof fn lemma_zombie_prefix(p: Seq<ProcState>, k: int)
    requires
        0 <= k <= p.len(),
    ensures
        zombie_ppids(p, k) == p.take(k).filter(|x: ProcState| x.state == 'Z').map_values(
            |x: ProcState| x.ppid,
        ),
    decreases k,
{
    reveal(Seq::filter);
    let isz = |x: ProcState| x.state == 'Z';
    let pp = |x: ProcState| x.ppid;
    if k == 0 {
        assert(p.take(0).filter(isz) =~= Seq::<ProcState>::empty());
        assert(p.take(0).filter(isz).map_values(pp) =~= Seq::<u32>::empty());
    } else {
        lemma_zombie_prefix(p, k - 1);
        let t = p.take(k);
        assert(t.drop_last() =~= p.take(k - 1));
        assert(t.last() == p[k - 1]);
        let sub = p.take(k - 1).filter(isz);
        if p[k - 1].state == 'Z' {
            assert(t.filter(isz) == sub.push(p[k - 1]));
            assert(sub.push(p[k - 1]).map_values(pp) =~= sub.map_values(pp).push(p[k - 1].ppid));
        } else {
            assert(t.filter(isz) == sub);
        }
    }
}

/// The zombie rule looks only at processes in state 'Z': it counts them
/// and collects their parent pids, in listing order, whatever the other
/// processes are. So with fewer than five such processes there is no
/// insight, however many processes run.
pub proof fn lemma_zombies_are_state_z(p: Seq<ProcState>)
    ensures
        zombie_ppids(p, p.len() as int) == p.filter(|x: ProcState| x.state == 'Z').map_values(
            |x: ProcState| x.ppid,
        ),
        zombie_ppids(p, p.len() as int).len() == p.filter(|x: ProcState| x.state == 'Z').len(),
{
    lemma_zombie_prefix(p, p.len() as int);
    assert(p.take(p.len() as int) =~= p);
}

/// Swap thrash compares the newest sample with the one `window` samples
/// back (30, or the whole history when shorter) and reports only growth:
/// a reported trend has `now` equal to the newest sample, strictly above
/// that baseline, with `growth` their difference, at least 100 MiB, and
/// critical exactly when it reaches 512 MiB. When the newest sample is not
/// above the baseline, nothing is reported; when it is at least 64 MiB and
/// 100 MiB above the baseline in a history of eight or more, a trend is.
pub proof fn lemma_swap_trend_is_growth(h: Seq<u64>)
    ensures
        swap_trend(h) matches Some(t) ==> {
            &&& h.len() >= 8
            &&& t.window == if h.len() >= 30 { 30 } else { h.len() }
            &&& t.now == h[h.len() - 1]
            &&& t.now >= 64 * MIB
            &&& h[h.len() - t.window] < t.now
            &&& t.growth == t.now - h[h.len() - t.window]
            &&& t.growth >= 100 * MIB
            &&& (t.severity == Severity::Crit <==> t.growth >= 512 * MIB)
            &&& (t.severity == Severity::Crit || t.severity == Severity::Warn)
        },
        h.len() >= 8 && h[h.len() - 1] <= h[if h.len() >= 30 { h.len() - 30 } else { 0 }]
            ==> swap_trend(h) is None,
        h.len() < 8 ==> swap_trend(h) is None,
        h.len() >= 8 && h[h.len() - 1] >= 64 * MIB && h[h.len() - 1] >= h[if h.len() >= 30 {
            h.len() - 30
        } else {
            0
        }] + 100 * MIB ==> swap_trend(h) is Some,
{
}

/// The parents listed by the zombie rule start with the smallest zombie
/// parent pid, and every zombie parent not above the last listed one is
/// listed: the list is the smallest ones, ascending, without repeats.
pub proof fn lemma_common_parents_smallest(zs: Seq<u32>, r: Seq<u32>)
    requires
        common_parents(zs, r),
        zs.len() > 0,
    ensures
        r.len() > 0,
        forall|x: u32| zs.contains(x) ==> r[0] <= x,
        forall|x: u32| zs.contains(x) && x <= r[r.len() - 1] ==> r.contains(x),
        forall|i: int, j: int| 0 <= i < j < r.len() ==> r[i] != r[j],
{
    assert(zs.to_set().contains(zs[0]));
    vstd::set_lib::lemma_len_subset(set![zs[0]], zs.to_set());
    assert(set![zs[0]].len() == 1);
    assert forall|x: u32| zs.contains(x) implies r[0] <= x by {
        if r.contains(x) {
            let j = choose|j: int| 0 <= j < r.len() && r[j] == x;
            if j > 0 {
                assert(r[0] < r[j]);
            }
        } else {
            assert(r[0] <= r[4]);
        }
    }
    assert forall|x: u32| zs.contains(x) && x <= r[r.len() - 1] implies r.contains(x) by {
        if !r.contains(x) {
            assert(x > r[4]);
        }
    }
}

} // verus!
