//! Rolling window of per-cgroup byte counters.
//!
//! The window keeps the last `MAX_SAMPLES` timestamped snapshots of the
//! per-cgroup counters (one per aggregator tick). A query for a window of
//! `w` seconds reports, per cgroup of the newest snapshot, how much each
//! counter grew since the newest snapshot taken no later than
//! `newest - w` seconds (or the oldest one kept, if none is that old).

use std::collections::VecDeque;

use vstd::prelude::*;

use crate::metrics::CgroupNetBytes;
use crate::sort::{is_stable_desc_sort, stable_sort_desc};

verus! {

/// Maximum number of samples kept in the window: 60 seconds of history at
/// one sample per second.
pub const MAX_SAMPLES: usize = 60;

/// Nanoseconds per second.
pub const NANOS_PER_SEC: u64 = 1_000_000_000;

/// One timestamped snapshot of per-cgroup counters.
struct Sample {
    timestamp_ns: u64,
    entries: Vec<CgroupNetBytes>,
}

/// A cgroup's counters as stored in the window: the snapshot time and the
/// entries of that snapshot.
pub type WindowSample = (u64, Seq<CgroupNetBytes>);

/// The rolling window, oldest sample first.
pub struct BandwidthWindow {
    samples: VecDeque<Sample>,
}

/// One cgroup's counter growth over the queried window (or its raw
/// counters for a zero-length window).
#[derive(Copy, Clone, Debug, PartialEq, Eq, Structural)]
pub struct CgroupBandwidthDelta {
    pub cgroup_id: u64,
    pub rx_bytes: u64,
    pub tx_bytes: u64,
    pub rx_internet_bytes: u64,
    pub tx_internet_bytes: u64,
    pub rx_packets: u64,
    pub tx_packets: u64,
}

/// A bandwidth row as served to API clients, with an optional cgroup name.
#[derive(Clone, Debug)]
pub struct CgroupBandwidthEntry {
    pub cgroup_id: u64,
    pub cgroup_name: Option<String>,
    pub rx_bytes: u64,
    pub tx_bytes: u64,
    pub rx_internet_bytes: u64,
    pub tx_internet_bytes: u64,
    pub rx_packets: u64,
    pub tx_packets: u64,
}

/// The raw counters of `e`, unchanged.
pub open spec fn cumulative_delta(e: CgroupNetBytes) -> CgroupBandwidthDelta {
    CgroupBandwidthDelta {
        cgroup_id: e.cgroup_id,
        rx_bytes: e.rx_bytes,
        tx_bytes: e.tx_bytes,
        rx_internet_bytes: e.rx_internet_bytes,
        tx_internet_bytes: e.tx_internet_bytes,
        rx_packets: e.rx_packets,
        tx_packets: e.tx_packets,
    }
}

/// Growth of each counter from `prev` to `cur`, floored at zero.
pub open spec fn delta_between(cur: CgroupNetBytes, prev: CgroupNetBytes) -> CgroupBandwidthDelta {
    CgroupBandwidthDelta {
        cgroup_id: cur.cgroup_id,
        rx_bytes: cur.rx_bytes.saturating_sub(prev.rx_bytes),
        tx_bytes: cur.tx_bytes.saturating_sub(prev.tx_bytes),
        rx_internet_bytes: cur.rx_internet_bytes.saturating_sub(prev.rx_internet_bytes),
        tx_internet_bytes: cur.tx_internet_bytes.saturating_sub(prev.tx_internet_bytes),
        rx_packets: cur.rx_packets.saturating_sub(prev.rx_packets),
        tx_packets: cur.tx_packets.saturating_sub(prev.tx_packets),
    }
}

/// The last entry of `entries` for cgroup `id`, if any.
pub open spec fn last_with_id(entries: Seq<CgroupNetBytes>, id: u64) -> Option<CgroupNetBytes>
    decreases entries.len(),
{
    if entries.len() == 0 {
        None
    } else if entries.last().cgroup_id == id {
        Some(entries.last())
    } else {
        last_with_id(entries.drop_last(), id)
    }
}

/// Growth of `cur` against the baseline snapshot; a cgroup absent from the
/// baseline counts from zero.
pub open spec fn delta_from_baseline(cur: CgroupNetBytes, baseline: Seq<CgroupNetBytes>) -> CgroupBandwidthDelta {
    match last_with_id(baseline, cur.cgroup_id) {
        Some(prev) => delta_between(cur, prev),
        None => cumulative_delta(cur),
    }
}

/// Index of the newest sample taken at or before `target`; 0 (the oldest
/// sample) when every sample is newer.
pub open spec fn baseline_index(h: Seq<WindowSample>, target: u64) -> int
    decreases h.len(),
{
    if h.len() == 0 {
        0
    } else if h.last().0 <= target {
        h.len() - 1
    } else {
        baseline_index(h.drop_last(), target)
    }
}

/// The timestamp a window of `window_secs` seconds reaches back to from
/// `latest_ns`, floored at zero.
pub open spec fn window_target(latest_ns: u64, window_secs: u64) -> u64 {
    latest_ns.saturating_sub((window_secs * NANOS_PER_SEC) as u64)
}

/// The unsorted per-cgroup deltas for a window query over history `h`
/// (oldest first, non-empty) and a window of `window_secs > 0` seconds.
pub open spec fn window_deltas(h: Seq<WindowSample>, window_secs: u64) -> Seq<CgroupBandwidthDelta> {
    let latest = h.last();
    let baseline = h[baseline_index(h, window_target(latest.0, window_secs))].1;
    latest.1.map_values(|cur: CgroupNetBytes| delta_from_baseline(cur, baseline))
}

/// Total internet traffic of a delta, saturating at `u64::MAX`.
pub open spec fn internet_total(d: CgroupBandwidthDelta) -> u64 {
    d.rx_internet_bytes.saturating_add(d.tx_internet_bytes)
}

/// History after pushing `(ts, entries)` onto `h`, evicting the oldest
/// sample when the window is full.
pub open spec fn pushed_history(h: Seq<WindowSample>, ts: u64, entries: Seq<CgroupNetBytes>) -> Seq<WindowSample> {
    if h.len() >= MAX_SAMPLES {
        h.drop_first().push((ts, entries))
    } else {
        h.push((ts, entries))
    }
}

/// `d` reports each counter of `cur` grown since `prev`: the newer count
/// minus the older one, or zero where the counter went backwards.
pub open spec fn reports_growth(d: CgroupBandwidthDelta, cur: CgroupNetBytes, prev: CgroupNetBytes) -> bool {
    &&& d.cgroup_id == cur.cgroup_id
    &&& d.rx_bytes == if cur.rx_bytes >= prev.rx_bytes { cur.rx_bytes - prev.rx_bytes } else { 0 }
    &&& d.tx_bytes == if cur.tx_bytes >= prev.tx_bytes { cur.tx_bytes - prev.tx_bytes } else { 0 }
    &&& d.rx_internet_bytes == if cur.rx_internet_bytes >= prev.rx_internet_bytes {
        cur.rx_internet_bytes - prev.rx_internet_bytes
    } else {
        0
    }
    &&& d.tx_internet_bytes == if cur.tx_internet_bytes >= prev.tx_internet_bytes {
        cur.tx_internet_bytes - prev.tx_internet_bytes
    } else {
        0
    }
    &&& d.rx_packets == if cur.rx_packets >= prev.rx_packets { cur.rx_packets - prev.rx_packets } else { 0 }
    &&& d.tx_packets == if cur.tx_packets >= prev.tx_packets { cur.tx_packets - prev.tx_packets } else { 0 }
}

/// `d` reports the counters of `cur` as they stand.
pub open spec fn reports_raw(d: CgroupBandwidthDelta, cur: CgroupNetBytes) -> bool {
    &&& d.cgroup_id == cur.cgroup_id
    &&& d.rx_bytes == cur.rx_bytes && d.tx_bytes == cur.tx_bytes
    &&& d.rx_internet_bytes == cur.rx_internet_bytes && d.tx_internet_bytes == cur.tx_internet_bytes
    &&& d.rx_packets == cur.rx_packets && d.tx_packets == cur.tx_packets
}

/// The baseline of a window is the newest sample taken at or before the
/// target time, or the oldest sample when every sample is newer.
pub proof fn lemma_baseline_is_closest_not_after(h: Seq<WindowSample>, target: u64)
    requires
        h.len() > 0,
    ensures
        0 <= baseline_index(h, target) < h.len(),
        h[baseline_index(h, target)].0 <= target ==> forall|j: int|
            baseline_index(h, target) < j < h.len() ==> h[j].0 > target,
        h[baseline_index(h, target)].0 > target ==> baseline_index(h, target) == 0 && forall|j: int|
            0 <= j < h.len() ==> h[j].0 > target,
    decreases h.len(),
{
    let t = h.drop_last();
    if h.last().0 > target && h.len() == 1 {
        assert(baseline_index(t, target) == 0);
        assert(baseline_index(h, target) == 0);
    } else if h.last().0 > target {
        lemma_baseline_is_closest_not_after(t, target);
        assert(baseline_index(h, target) == baseline_index(t, target));
        assert(h[baseline_index(h, target)] == t[baseline_index(t, target)]);
        assert forall|j: int| baseline_index(h, target) < j < h.len() implies h[j].0 > target by {
            if j < h.len() - 1 {
                assert(h[j] == t[j]);
            }
        }
        if h[baseline_index(h, target)].0 > target {
            assert forall|j: int| 0 <= j < h.len() implies h[j].0 > target by {
                if j < h.len() - 1 {
                    assert(h[j] == t[j]);
                }
            }
        }
    } else {
        assert(baseline_index(h, target) == h.len() - 1);
    }
}

/// The entry `last_with_id` picks is the last one of that cgroup.
pub proof fn lemma_last_with_id(entries: Seq<CgroupNetBytes>, id: u64)
    ensures
        match last_with_id(entries, id) {
            Some(e) => exists|k: int|
                0 <= k < entries.len() && entries[k] == e && e.cgroup_id == id && forall|j: int|
                    k < j < entries.len() ==> entries[j].cgroup_id != id,
            None => forall|j: int| 0 <= j < entries.len() ==> entries[j].cgroup_id != id,
        },
    decreases entries.len(),
{
    if entries.len() > 0 && entries.last().cgroup_id != id {
        let t = entries.drop_last();
        lemma_last_with_id(t, id);
        match last_with_id(t, id) {
            Some(e) => {
                let k = choose|k: int|
                    0 <= k < t.len() && t[k] == e && e.cgroup_id == id && forall|j: int|
                        k < j < t.len() ==> t[j].cgroup_id != id;
                assert(entries[k] == e);
                assert forall|j: int| k < j < entries.len() implies entries[j].cgroup_id != id by {
                    if j < entries.len() - 1 {
                        assert(entries[j] == t[j]);
                    }
                }
            },
            None => {
                assert forall|j: int| 0 <= j < entries.len() implies entries[j].cgroup_id != id by {
                    if j < entries.len() - 1 {
                        assert(entries[j] == t[j]);
                    }
                }
            },
        }
    } else if entries.len() > 0 {
        assert(entries[entries.len() - 1] == entries.last());
    }
}

/// Over a window of `window_secs > 0` seconds, the delta for the `k`-th
/// cgroup of the newest sample reports every counter's growth since the
/// baseline sample (newest minus baseline, floored at zero) when the
/// baseline holds that cgroup (its last entry there), and the raw
/// counters when it does not. A zero-length window reports the raw
/// counters of the newest sample.
pub proof fn lemma_window_delta_is_growth(h: Seq<WindowSample>, window_secs: u64, k: int)
    requires
        h.len() > 0,
        0 <= k < h.last().1.len(),
    ensures
        ({
            let cur = h.last().1[k];
            let base = h[baseline_index(h, window_target(h.last().0, window_secs))].1;
            let d = window_deltas(h, window_secs)[k];
            match last_with_id(base, cur.cgroup_id) {
                Some(prev) => reports_growth(d, cur, prev),
                None => reports_raw(d, cur),
            }
        }),
        reports_raw(cumulative_delta(h.last().1[k]), h.last().1[k]),
{
}

/// A push makes the pushed counters the newest sample, which is what a
/// zero-length window query then reports; the samples before it are the
/// newest ones held before, at most `MAX_SAMPLES - 1` of them.
pub proof fn lemma_push_is_newest(h: Seq<WindowSample>, ts: u64, entries: Seq<CgroupNetBytes>)
    requires
        h.len() <= MAX_SAMPLES,
    ensures
        ({
            let p = pushed_history(h, ts, entries);
            &&& p.len() > 0
            &&& p.len() <= MAX_SAMPLES
            &&& p.last() == (ts, entries)
            &&& p.drop_last() == h.subrange(h.len() - (p.len() - 1), h.len() as int)
        }),
{
    let p = pushed_history(h, ts, entries);
    assert(p.drop_last() =~= h.subrange(h.len() - (p.len() - 1), h.len() as int));
}

impl BandwidthWindow {
    /// The window never holds more than `MAX_SAMPLES` samples.
    #[verifier::type_invariant]
    spec fn bounded(self) -> bool {
        self.samples@.len() <= MAX_SAMPLES
    }

    /// The samples held, oldest first.
    pub closed spec fn history(&self) -> Seq<WindowSample> {
        self.samples@.map_values(|s: Sample| (s.timestamp_ns, s.entries@))
    }

    /// An empty window.
    pub fn new() -> (w: Self)
        ensures
            w.history() == Seq::<WindowSample>::empty(),
    {
        let w = BandwidthWindow { samples: VecDeque::with_capacity(MAX_SAMPLES + 1) };
        assert(w.history() =~= Seq::<WindowSample>::empty());
        w
    }

    /// Record the counters of one aggregator tick. The window stays within
    /// `MAX_SAMPLES` samples, the oldest one making room for the new one.
    pub fn push(&mut self, timestamp_ns: u64, entries: Vec<CgroupNetBytes>)
        ensures
            final(self).history() == pushed_history(old(self).history(), timestamp_ns, entries@),
            final(self).history().len() <= MAX_SAMPLES,
            old(self).history().len() <= MAX_SAMPLES,
    {
        proof {
            use_type_invariant(&*self);
        }
        let ghost h0 = self.history();
        let mut samples: VecDeque<Sample> = VecDeque::new();
        std::mem::swap(&mut samples, &mut self.samples);
        if samples.len() >= MAX_SAMPLES {
            let _ = samples.pop_front();
        }
        samples.push_back(Sample { timestamp_ns, entries });
        self.samples = samples;
        assert(self.history() =~= pushed_history(h0, timestamp_ns, entries@));
    }

    /// Position of the newest sample taken at or before `target`, or 0.
    fn baseline_position(&self, target: u64) -> (r: usize)
        ensures
            r == baseline_index(self.history(), target),
            self.history().len() > 0 ==> r < self.history().len(),
    {
        let ghost h = self.history();
        let n = self.samples.len();
        let mut j: usize = n;
        assert(h.subrange(0, n as int) =~= h);
        while j > 0
            invariant
                j <= n,
                n == self.samples@.len(),
                h == self.history(),
                h.len() == n,
                baseline_index(h, target) == baseline_index(h.subrange(0, j as int), target),
            decreases j,
        {
            assert(h.subrange(0, j as int).drop_last() =~= h.subrange(0, j - 1));
            assert(h[j - 1] == (self.samples@[j - 1].timestamp_ns, self.samples@[j - 1].entries@));
            if self.samples[j - 1].timestamp_ns <= target {
                return j - 1;
            }
            j = j - 1;
        }
        0
    }

    /// Per-cgroup counter growth over the last `window_secs` seconds,
    /// ordered by descending internet traffic (stable among ties). A zero
    /// window returns the newest raw counters in snapshot order; an empty
    /// window returns nothing, whatever `window_secs` is. On a non-empty
    /// window, `window_secs` seconds must be expressible in nanoseconds.
    pub fn query(&self, window_secs: u64) -> (out: Vec<CgroupBandwidthDelta>)
        requires
            self.history().len() > 0 ==> window_secs <= u64::MAX / NANOS_PER_SEC,
        ensures
            self.history().len() == 0 ==> out@.len() == 0,
            self.history().len() > 0 && window_secs == 0 ==> out@ == self.history().last().1.map_values(
                |e: CgroupNetBytes| cumulative_delta(e),
            ),
            self.history().len() > 0 && window_secs > 0 ==> is_stable_desc_sort(
                window_deltas(self.history(), window_secs),
                window_deltas(self.history(), window_secs).map_values(
                    |d: CgroupBandwidthDelta| internet_total(d),
                ),
                out@,
            ),
    {
        let n = self.samples.len();
        if n == 0 {
            return Vec::new();
        }
        let ghost h = self.history();
        let latest = &self.samples[n - 1];
        assert(h.last() == (latest.timestamp_ns, latest.entries@));
        if window_secs == 0 {
            let mut out: Vec<CgroupBandwidthDelta> = Vec::new();
            let mut i: usize = 0;
            while i < latest.entries.len()
                invariant
                    i <= latest.entries.len(),
                    out@ == latest.entries@.subrange(0, i as int).map_values(
                        |e: CgroupNetBytes| cumulative_delta(e),
                    ),
                decreases latest.entries.len() - i,
            {
                let e = latest.entries[i];
                out.push(CgroupBandwidthDelta {
                    cgroup_id: e.cgroup_id,
                    rx_bytes: e.rx_bytes,
                    tx_bytes: e.tx_bytes,
                    rx_internet_bytes: e.rx_internet_bytes,
                    tx_internet_bytes: e.tx_internet_bytes,
                    rx_packets: e.rx_packets,
                    tx_packets: e.tx_packets,
                });
                assert(latest.entries@.subrange(0, i + 1).drop_last() =~= latest.entries@.subrange(0, i as int));
                i = i + 1;
            }
            assert(latest.entries@.subrange(0, i as int) =~= latest.entries@);
            return out;
        }
        let target = latest.timestamp_ns.saturating_sub(window_secs * NANOS_PER_SEC);
        // Newest sample at or before the target, else the oldest one.
        let found = self.baseline_position(target);
        let baseline = &self.samples[found].entries;
        // Per-cgroup deltas in newest-snapshot order.
        let mut deltas: Vec<CgroupBandwidthDelta> = Vec::new();
        let mut keys: Vec<u64> = Vec::new();
        let mut i: usize = 0;
        while i < latest.entries.len()
            invariant
                i <= latest.entries.len(),
                deltas.len() == i,
                keys.len() == i,
                forall|k: int| 0 <= k < i ==> #[trigger] deltas@[k] == delta_from_baseline(latest.entries@[k], baseline@),
                forall|k: int| 0 <= k < i ==> #[trigger] keys@[k] == internet_total(deltas@[k]),
            decreases latest.entries.len() - i,
        {
            let cur = latest.entries[i];
            let prev = last_entry_with_id(baseline, cur.cgroup_id);
            let d = match prev {
                Some(p) => CgroupBandwidthDelta {
                    cgroup_id: cur.cgroup_id,
                    rx_bytes: cur.rx_bytes.saturating_sub(p.rx_bytes),
                    tx_bytes: cur.tx_bytes.saturating_sub(p.tx_bytes),
                    rx_internet_bytes: cur.rx_internet_bytes.saturating_sub(p.rx_internet_bytes),
                    tx_internet_bytes: cur.tx_internet_bytes.saturating_sub(p.tx_internet_bytes),
                    rx_packets: cur.rx_packets.saturating_sub(p.rx_packets),
                    tx_packets: cur.tx_packets.saturating_sub(p.tx_packets),
                },
                None => CgroupBandwidthDelta {
                    cgroup_id: cur.cgroup_id,
                    rx_bytes: cur.rx_bytes,
                    tx_bytes: cur.tx_bytes,
                    rx_internet_bytes: cur.rx_internet_bytes,
                    tx_internet_bytes: cur.tx_internet_bytes,
                    rx_packets: cur.rx_packets,
                    tx_packets: cur.tx_packets,
                },
            };
            deltas.push(d);
            keys.push(d.rx_internet_bytes.saturating_add(d.tx_internet_bytes));
            i = i + 1;
        }
        proof {
            assert(found == baseline_index(h, target));
            assert(deltas@ =~= window_deltas(h, window_secs));
            assert(keys@ =~= window_deltas(h, window_secs).map_values(
                |d: CgroupBandwidthDelta| internet_total(d),
            ));
        }
        stable_sort_desc(&deltas, &keys)
    }
}

/// The last entry of `entries` for cgroup `id`, if any.
fn last_entry_with_id(entries: &Vec<CgroupNetBytes>, id: u64) -> (r: Option<CgroupNetBytes>)
    ensures
        r == last_with_id(entries@, id),
{
    let mut j: usize = entries.len();
    assert(entries@.subrange(0, j as int) =~= entries@);
    while j > 0
        invariant
            j <= entries.len(),
            last_with_id(entries@, id) == last_with_id(entries@.subrange(0, j as int), id),
        decreases j,
    {
        assert(entries@.subrange(0, j as int).drop_last() =~= entries@.subrange(0, j - 1));
        if entries[j - 1].cgroup_id == id {
            return Some(entries[j - 1]);
        }
        j = j - 1;
    }
    None
}

} // verus!
