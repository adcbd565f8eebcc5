use vstd::prelude::*;

verus! {

/// Whether snapshot j ranks before snapshot i when ordering newest first:
/// strictly newer, or equally new and listed earlier.
pub open spec fn ranks_before(times: Seq<i64>, j: int, i: int) -> bool {
    times[j] > times[i] || (times[j] == times[i] && j < i)
}

/// Number of snapshots among the first n that rank before snapshot i.
pub open spec fn rank_among(times: Seq<i64>, i: int, n: int) -> nat
    decreases n,
{
    if n <= 0 {
        0
    } else {
        rank_among(times, i, n - 1) + if ranks_before(times, n - 1, i) { 1nat } else { 0nat }
    }
}

/// Position of snapshot i in the newest-first order.
pub open spec fn rank_of(times: Seq<i64>, i: int) -> nat {
    rank_among(times, i, times.len() as int)
}

/// Indices below m, in increasing order, of the snapshots outside the newest `keep`.
pub open spec fn stale_prefix(times: Seq<i64>, keep: nat, m: int) -> Seq<usize>
    decreases m,
{
    if m <= 0 {
        Seq::empty()
    } else {
        let rest = stale_prefix(times, keep, m - 1);
        if rank_of(times, m - 1) >= keep { rest.push((m - 1) as usize) } else { rest }
    }
}

fn rank(times: &Vec<i64>, i: usize) -> (r: usize)
    requires
        i < times@.len(),
    ensures
        r == rank_of(times@, i as int),
{
    let mut count: usize = 0;
    let mut j: usize = 0;
    while j < times.len()
        invariant
            i < times@.len(),
            j <= times@.len(),
            count == rank_among(times@, i as int, j as int),
            count <= j,
        decreases times@.len() - j,
    {
        if times[j] > times[i] || (times[j] == times[i] && j < i) {
            count = count + 1;
        }
        j = j + 1;
    }
    count
}

/// Which snapshots to delete so that only the `keep_last_n` newest remain
/// (ties broken by listing order), by index in increasing order.
pub fn stale_snapshots(times: &Vec<i64>, keep_last_n: usize) -> (r: Vec<usize>)
    ensures
        r@ == stale_prefix(times@, keep_last_n as nat, times@.len() as int),
{
    let mut out: Vec<usize> = Vec::new();
    let mut i: usize = 0;
    while i < times.len()
        invariant
            i <= times@.len(),
            out@ == stale_prefix(times@, keep_last_n as nat, i as int),
        decreases times@.len() - i,
    {
        if rank(times, i) >= keep_last_n {
            out.push(i);
        }
        i = i + 1;
    }
    out
}

/// The newest snapshot (the first listed among equally new ones), or None
/// when there is none.
pub fn newest_snapshot(times: &Vec<i64>) -> (r: Option<usize>)
    ensures
        r is None <==> times@.len() == 0,
        r is Some ==> r.unwrap() < times@.len(),
        r is Some ==> forall|j: int| 0 <= j < times@.len() ==> #[trigger] times@[j] <= times@[r.unwrap() as int],
        r is Some ==> forall|j: int| 0 <= j < r.unwrap() ==> #[trigger] times@[j] < times@[r.unwrap() as int],
{
    if times.len() == 0 {
        return None;
    }
    let mut best: usize = 0;
    let mut j: usize = 1;
    while j < times.len()
        invariant
            1 <= j <= times@.len(),
            best < j,
            forall|k: int| 0 <= k < j ==> #[trigger] times@[k] <= times@[best as int],
            forall|k: int| 0 <= k < best ==> #[trigger] times@[k] < times@[best as int],
        decreases times@.len() - j,
    {
        if times[j] > times[best] {
            best = j;
        }
        j = j + 1;
    }
    Some(best)
}

} // verus!
