//! Device-level disk IO totals on macOS.
//!
//! Each `IOBlockStorageDriver` registry entry carries a `Statistics`
//! dictionary with cumulative `Bytes (Read)` / `Bytes (Write)` — the
//! source `iostat` reads. The binary walks the registry; this module sums
//! what it found.

use vstd::prelude::*;

verus! {

/// One block storage driver: whether it has a `Statistics` dictionary,
/// and the two counters in it (None when missing or not a number).
#[derive(Debug, Clone, Copy)]
pub struct BlockStats {
    pub has_statistics: bool,
    pub bytes_read: Option<i64>,
    pub bytes_written: Option<i64>,
}

/// A counter as a byte count: negative or missing counts as 0.
pub open spec fn counter(v: Option<i64>) -> u64 {
    match v {
        Some(x) => if x < 0 {
            0
        } else {
            x as u64
        },
        None => 0,
    }
}

pub open spec fn sat_add(a: u64, b: u64) -> u64 {
    if a + b > u64::MAX {
        u64::MAX
    } else {
        (a + b) as u64
    }
}

/// Totals over the first `k` drivers that have statistics.
pub open spec fn totals(s: Seq<BlockStats>, k: int) -> (u64, u64)
    decreases k,
{
    if k <= 0 {
        (0, 0)
    } else {
        let t = totals(s, k - 1);
        if s[k - 1].has_statistics {
            (sat_add(t.0, counter(s[k - 1].bytes_read)), sat_add(t.1, counter(s[k - 1].bytes_written)))
        } else {
            t
        }
    }
}

pub open spec fn any_statistics(s: Seq<BlockStats>) -> bool {
    exists|i: int| 0 <= i < s.len() && (#[trigger] s[i]).has_statistics
}

fn counter_of(v: Option<i64>) -> (r: u64)
    ensures
        r == counter(v),
{
    match v {
        Some(x) => if x < 0 {
            0
        } else {
            x as u64
        },
        None => 0,
    }
}

/// Cumulative (bytes read, bytes written) summed (saturating) over every
/// driver with statistics; None when no driver has any.
pub fn total_block_io(drivers: &Vec<BlockStats>) -> (r: Option<(u64, u64)>)
    ensures
        any_statistics(drivers@) ==> r == Some(totals(drivers@, drivers@.len() as int)),
        !any_statistics(drivers@) ==> r is None,
{
    let n = drivers.len();
    let mut read: u64 = 0;
    let mut write: u64 = 0;
    let mut seen = false;
    for k in 0..n
        invariant
            n == drivers.len(),
            (read, write) == totals(drivers@, k as int),
            seen == exists|i: int| 0 <= i < k && (#[trigger] drivers@[i]).has_statistics,
    {
        let d = drivers[k];
        if d.has_statistics {
            seen = true;
            read = read.saturating_add(counter_of(d.bytes_read));
            write = write.saturating_add(counter_of(d.bytes_written));
        }
        proof {
            if drivers@[k as int].has_statistics {
                assert(exists|i: int| 0 <= i < k + 1 && (#[trigger] drivers@[i]).has_statistics);
            }
        }
    }
    if seen {
        Some((read, write))
    } else {
        None
    }
}

proof fn lemma_totals_prefix(s: Seq<BlockStats>, k: int)
    requires
        0 <= k <= s.len(),
    ensures
        forall|i: int|
            0 <= i < k && (#[trigger] s[i]).has_statistics ==> totals(s, k).0 >= counter(
                s[i].bytes_read,
            ) && totals(s, k).1 >= counter(s[i].bytes_written),
        (forall|i: int| 0 <= i < k ==> !(#[trigger] s[i]).has_statistics) ==> totals(s, k) == (
            0u64,
            0u64,
        ),
    decreases k,
{
    if k > 0 {
        lemma_totals_prefix(s, k - 1);
        assert forall|i: int| 0 <= i < k && (#[trigger] s[i]).has_statistics implies totals(s, k).0
            >= counter(s[i].bytes_read) && totals(s, k).1 >= counter(s[i].bytes_written) by {
            if i < k - 1 {
                assert(s[i].has_statistics);
            }
        }
    }
}

/// The totals count every driver with statistics and nothing else: each
/// such driver's counters are at most the totals, drivers without
/// statistics add nothing, and without any such driver there is no
/// total.
pub proof fn lemma_block_totals(s: Seq<BlockStats>, t: BlockStats)
    ensures
        forall|i: int|
            0 <= i < s.len() && (#[trigger] s[i]).has_statistics ==> totals(s, s.len() as int).0
                >= counter(s[i].bytes_read) && totals(s, s.len() as int).1 >= counter(
                s[i].bytes_written,
            ),
        !t.has_statistics ==> totals(s.push(t), s.len() as int + 1) == totals(s, s.len() as int),
        any_statistics(s) <==> exists|i: int| 0 <= i < s.len() && s[i].has_statistics,
{
    lemma_totals_prefix(s, s.len() as int);
    let u = s.push(t);
    lemma_totals_same(u, s, s.len() as int);
    assert(u[s.len() as int] == t);
}

proof fn lemma_totals_same(u: Seq<BlockStats>, s: Seq<BlockStats>, k: int)
    requires
        0 <= k <= s.len(),
        k <= u.len(),
        forall|i: int| 0 <= i < k ==> u[i] == s[i],
    ensures
        totals(u, k) == totals(s, k),
    decreases k,
{
    if k > 0 {
        lemma_totals_same(u, s, k - 1);
    }
}

} // verus!
