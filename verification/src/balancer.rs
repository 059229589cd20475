//! Load scoring and placement: the weight calculator, the backup pool,
//! and the top-K placement algorithm with elastic scale-out / scale-in.
//!
//! Scores and utilisation ratios are fixed-point integers in parts per
//! million (1_000_000 = 100%); lower scores mean better placement
//! targets.

use vstd::prelude::*;
use crate::ema::{Ema, ema_output, lemma_ema_output_bounds};
use crate::host;
use crate::Process;

verus! {

/// Network goodness score derived from a one-way latency:
/// `1 - min(latency, 1000ms) / 1000ms`, in parts per million.
pub open spec fn net_score_ppm(latency_ms: u32) -> int {
    if latency_ms >= 1000 {
        0
    } else {
        (1000 - latency_ms) * 1000
    }
}

/// Composite load score: 60% CPU, 30% memory, 10% network goodness.
pub open spec fn combine_score(cpu: int, mem: int, net: int) -> int {
    (6 * cpu + 3 * mem + net) / 10
}

/// EMA-smoothed composite load score per worker.
pub struct WeightCalculator {
    pub cpu_ema: Ema,
    pub mem_ema: Ema,
    pub net_ema: Ema,
}

/// An EMA state bounded by full scale.
pub open spec fn ema_bounded(state: Option<u64>) -> bool {
    state matches Some(v) ==> v <= 1_000_000
}

impl WeightCalculator {
    /// All three averages share one coefficient and hold in-range values.
    pub open spec fn wf(self) -> bool {
        &&& self.cpu_ema.wf()
        &&& self.mem_ema.wf()
        &&& self.net_ema.wf()
        &&& self.mem_ema.alpha == self.cpu_ema.alpha
        &&& self.net_ema.alpha == self.cpu_ema.alpha
        &&& ema_bounded(self.cpu_ema.state)
        &&& ema_bounded(self.mem_ema.state)
        &&& ema_bounded(self.net_ema.state)
    }

    /// Create a calculator with the given smoothing coefficient in
    /// parts per million, strictly between 0 and 1.
    pub fn new(alpha: u32) -> (r: WeightCalculator)
        requires
            0 < alpha < 1_000_000,
        ensures
            r.wf(),
            r.cpu_ema.alpha == alpha,
            r.cpu_ema.state is None,
            r.mem_ema.state is None,
            r.net_ema.state is None,
    {
        WeightCalculator { cpu_ema: Ema::new(alpha), mem_ema: Ema::new(alpha), net_ema: Ema::new(alpha) }
    }

    /// Feed one telemetry sample and return the smoothed composite
    /// score. A latency of 0 contributes the full network score of
    /// 1_000_000 to its average; a latency of 1000 ms or more
    /// contributes 0.
    pub fn calculate(&mut self, cpu: u32, mem: u32, net_latency_ms: u32) -> (r: u32)
        requires
            old(self).wf(),
            cpu <= 1_000_000,
            mem <= 1_000_000,
        ensures
            final(self).wf(),
            final(self).cpu_ema.alpha == old(self).cpu_ema.alpha,
            r <= 1_000_000,
            ({
                let a = old(self).cpu_ema.alpha as int;
                let c = ema_output(a, old(self).cpu_ema.state, cpu as u64);
                let m = ema_output(a, old(self).mem_ema.state, mem as u64);
                let n = ema_output(a, old(self).net_ema.state, net_score_ppm(net_latency_ms) as u64);
                &&& r as int == combine_score(c, m, n)
                &&& final(self).cpu_ema.state == Some(c as u64)
                &&& final(self).mem_ema.state == Some(m as u64)
                &&& final(self).net_ema.state == Some(n as u64)
            }),
    {
        let net_score: u32 = if net_latency_ms >= 1000 {
            0
        } else {
            (1000 - net_latency_ms) * 1000
        };
        proof {
            let a = self.cpu_ema.alpha as int;
            lemma_ema_output_bounds(a, self.cpu_ema.state, cpu as u64, 1_000_000);
            lemma_ema_output_bounds(a, self.mem_ema.state, mem as u64, 1_000_000);
            lemma_ema_output_bounds(a, self.net_ema.state, net_score as u64, 1_000_000);
        }
        let cpu_s = self.cpu_ema.feed(cpu as u64);
        let mem_s = self.mem_ema.feed(mem as u64);
        let net_s = self.net_ema.feed(net_score as u64);
        let total: u64 = 6 * cpu_s + 3 * mem_s + net_s;
        (total / 10) as u32
    }

    /// Forget all accumulated smoothing state.
    pub fn reset(&mut self)
        requires
            old(self).wf(),
        ensures
            final(self).wf(),
            final(self).cpu_ema.alpha == old(self).cpu_ema.alpha,
            final(self).cpu_ema.state is None,
            final(self).mem_ema.state is None,
            final(self).net_ema.state is None,
    {
        self.cpu_ema.reset();
        self.mem_ema.reset();
        self.net_ema.reset();
    }
}

/// Workers admitted to the system but held in reserve for scale-out.
pub struct BackupPool {
    pub nodes: Vec<Process>,
    /// Warm-up duration applied when a member is promoted, milliseconds.
    pub warmup_ms: u64,
}

impl BackupPool {
    /// An empty pool with the given warm-up duration.
    pub fn new(warmup_ms: u64) -> (r: BackupPool)
        ensures
            r.nodes@.len() == 0,
            r.warmup_ms == warmup_ms,
    {
        BackupPool { nodes: Vec::new(), warmup_ms }
    }

    /// Hold a node in reserve.
    pub fn add_node(&mut self, node: Process)
        ensures
            final(self).nodes@ == old(self).nodes@.push(node),
            final(self).warmup_ms == old(self).warmup_ms,
    {
        self.nodes.push(node);
    }

    /// Take the most recently reserved node, if any.
    pub fn take_node(&mut self) -> (r: Option<Process>)
        ensures
            final(self).warmup_ms == old(self).warmup_ms,
            old(self).nodes@.len() == 0 ==> r is None && final(self).nodes@ == old(self).nodes@,
            old(self).nodes@.len() > 0 ==> r == Some(old(self).nodes@.last())
                && final(self).nodes@ == old(self).nodes@.drop_last(),
    {
        self.nodes.pop()
    }

    /// Number of nodes currently in reserve.
    pub fn len(&self) -> (r: usize)
        ensures
            r == self.nodes@.len(),
    {
        self.nodes.len()
    }
}

/// Why placement produced no worker.
#[derive(Debug, PartialEq, Eq, Structural)]
pub enum SelectorError {
    NoNodesAvailable,
    InvalidLoad,
}

/// Why a scaling operation failed.
#[derive(Debug, PartialEq, Eq, Structural)]
pub enum ScaleError {
    NoBackupNodes,
    MigrationTimeout,
}

/// A node index qualifies for placement when its score is at or below
/// the threshold.
pub open spec fn candidate_at(nodes: Seq<(Process, u32)>, threshold: u32, j: int) -> bool {
    0 <= j < nodes.len() && nodes[j].1 <= threshold
}

/// Placement preference: strictly lower score wins; equal scores fall
/// back to registry insertion order.
pub open spec fn score_before(nodes: Seq<(Process, u32)>, i: int, j: int) -> bool {
    nodes[i].1 < nodes[j].1 || (nodes[i].1 == nodes[j].1 && i < j)
}

/// Ordering on (score, registry position) pairs: lower score first,
/// ties by position.
pub open spec fn pair_le(a: (u32, usize), b: (u32, usize)) -> bool {
    a.0 < b.0 || (a.0 == b.0 && a.1 <= b.1)
}

/// Selection sort on (score, position) pairs, ascending.
fn sort_pairs(v: &mut Vec<(u32, usize)>)
    ensures
        final(v)@.len() == old(v)@.len(),
        final(v)@.to_multiset() == old(v)@.to_multiset(),
        forall|a: int, b: int|
            0 <= a < b < final(v)@.len() ==> pair_le(final(v)@[a], final(v)@[b]),
{
    let n = v.len();
    let mut s: usize = 0;
    while s < n
        invariant
            v@.len() == n,
            s <= n,
            v@.to_multiset() == old(v)@.to_multiset(),
            forall|a: int, b: int| 0 <= a < b < s ==> pair_le(v@[a], v@[b]),
            forall|a: int, b: int| 0 <= a < s && s <= b < n ==> pair_le(v@[a], v@[b]),
        decreases n - s,
    {
        let mut mi: usize = s;
        let mut j: usize = s + 1;
        while j < n
            invariant
                v@.len() == n,
                s <= mi < j <= n,
                forall|t: int| s <= t < j ==> pair_le(v@[mi as int], v@[t]),
            decreases n - j,
        {
            let pj = v[j];
            let pm = v[mi];
            if pj.0 < pm.0 || (pj.0 == pm.0 && pj.1 < pm.1) {
                mi = j;
            }
            j = j + 1;
        }
        let a = v[mi];
        let b = v[s];
        let ghost pre = v@;
        v[s] = a;
        v[mi] = b;
        proof {
            assert(v@ == pre.update(s as int, a).update(mi as int, b));
            broadcast use vstd::seq_lib::to_multiset_update;
            broadcast use vstd::multiset::group_multiset_axioms;
            broadcast use vstd::seq_lib::group_to_multiset_ensures;

            assert(pre.to_multiset().contains(pre[s as int]));
            assert(pre.update(s as int, a)[mi as int] == a);
            assert(v@.to_multiset() =~= pre.to_multiset());
        }
        s = s + 1;
    }
}

/// Everything the filtering pass records about a collected pair.
spec fn filtered_pair(nodes: Seq<(Process, u32)>, threshold: u32, e: (u32, usize)) -> bool {
    &&& (e.1 as int) < nodes.len()
    &&& nodes[e.1 as int].1 == e.0
    &&& e.0 <= threshold
}

/// Filter-by-threshold, sort-by-score, top-K, uniform-random placement,
/// with graduated scale-out from a warm backup pool.
pub struct ZergRushSelector {
    /// Completed task count.
    pub total_tasks: u64,
    /// Summed task duration in milliseconds.
    pub total_duration: u64,
    /// Submitted task count.
    pub tasks_submitted: u64,
    /// Completed scale-out count.
    pub scale_outs: u64,
    /// Placement load threshold in parts per million.
    pub max_load_threshold: u32,
    /// Health check interval in milliseconds.
    pub check_interval_ms: u64,
    /// Reserve workers awaiting promotion.
    pub backup_pool: BackupPool,
}

/// Both selector states hold the same counters, configuration and
/// backup contents.
pub open spec fn same_selector_state(a: ZergRushSelector, b: ZergRushSelector) -> bool {
    &&& a.total_tasks == b.total_tasks
    &&& a.total_duration == b.total_duration
    &&& a.tasks_submitted == b.tasks_submitted
    &&& a.scale_outs == b.scale_outs
    &&& a.max_load_threshold == b.max_load_threshold
    &&& a.check_interval_ms == b.check_interval_ms
    &&& a.backup_pool.nodes@ == b.backup_pool.nodes@
    &&& a.backup_pool.warmup_ms == b.backup_pool.warmup_ms
}

impl ZergRushSelector {
    /// Create a selector.
    pub fn new(max_load_threshold: u32, check_interval_ms: u64, warmup_ms: u64) -> (r:
        ZergRushSelector)
        requires
            max_load_threshold <= 1_000_000,
        ensures
            r.total_tasks == 0,
            r.total_duration == 0,
            r.tasks_submitted == 0,
            r.scale_outs == 0,
            r.max_load_threshold == max_load_threshold,
            r.check_interval_ms == check_interval_ms,
            r.backup_pool.nodes@.len() == 0,
            r.backup_pool.warmup_ms == warmup_ms,
    {
        ZergRushSelector {
            total_tasks: 0,
            total_duration: 0,
            tasks_submitted: 0,
            scale_outs: 0,
            max_load_threshold,
            check_interval_ms,
            backup_pool: BackupPool::new(warmup_ms),
        }
    }

    /// Record a completed task and its duration; counters saturate
    /// instead of wrapping.
    pub fn on_task_completed(&mut self, duration_ms: u64)
        ensures
            final(self).total_tasks == if old(self).total_tasks < u64::MAX {
                (old(self).total_tasks + 1) as u64
            } else {
                u64::MAX
            },
            final(self).total_duration == if old(self).total_duration + duration_ms <= u64::MAX {
                (old(self).total_duration + duration_ms) as u64
            } else {
                u64::MAX
            },
            final(self).tasks_submitted == old(self).tasks_submitted,
            final(self).scale_outs == old(self).scale_outs,
            final(self).max_load_threshold == old(self).max_load_threshold,
            final(self).check_interval_ms == old(self).check_interval_ms,
            final(self).backup_pool == old(self).backup_pool,
    {
        if self.total_tasks < u64::MAX {
            self.total_tasks = self.total_tasks + 1;
        }
        if self.total_duration <= u64::MAX - duration_ms {
            self.total_duration = self.total_duration + duration_ms;
        } else {
            self.total_duration = u64::MAX;
        }
    }

    /// Record a task submission; the counter saturates instead of
    /// wrapping.
    pub fn on_task_submitted(&mut self)
        ensures
            final(self).tasks_submitted == if old(self).tasks_submitted < u64::MAX {
                (old(self).tasks_submitted + 1) as u64
            } else {
                u64::MAX
            },
            final(self).total_tasks == old(self).total_tasks,
            final(self).total_duration == old(self).total_duration,
            final(self).scale_outs == old(self).scale_outs,
            final(self).max_load_threshold == old(self).max_load_threshold,
            final(self).check_interval_ms == old(self).check_interval_ms,
            final(self).backup_pool == old(self).backup_pool,
    {
        if self.tasks_submitted < u64::MAX {
            self.tasks_submitted = self.tasks_submitted + 1;
        }
    }

    /// The deterministic part of placement: filter out nodes whose
    /// score exceeds the threshold, order the rest by score with ties
    /// broken by position, and keep the best `k`. The returned indices
    /// point into `nodes`; any qualifying index left out scores no
    /// better than the worst one kept.
    pub fn top_candidates(&self, nodes: &Vec<(Process, u32)>, k: usize) -> (r: Result<
        Vec<usize>,
        SelectorError,
    >)
        requires
            k >= 1,
        ensures
            r is Err ==> r == Err::<Vec<usize>, SelectorError>(SelectorError::NoNodesAvailable)
                && forall|j: int| !candidate_at(nodes@, self.max_load_threshold, j),
            r matches Ok(v) ==> ({
                &&& 1 <= v@.len() <= k
                &&& forall|t: int|
                    0 <= t < v@.len() ==> candidate_at(
                        nodes@,
                        self.max_load_threshold,
                        v@[t] as int,
                    )
                &&& forall|a: int, b: int|
                    0 <= a < b < v@.len() ==> score_before(nodes@, v@[a] as int, v@[b] as int)
                &&& forall|j: int|
                    candidate_at(nodes@, self.max_load_threshold, j) && !v@.contains(j as usize)
                        ==> score_before(nodes@, v@[v@.len() - 1] as int, j)
                &&& (v@.len() < k ==> forall|j: int|
                    candidate_at(nodes@, self.max_load_threshold, j) ==> v@.contains(j as usize))
            }),
    {
        let thr = self.max_load_threshold;
        let mut cands: Vec<(u32, usize)> = Vec::new();
        let n = nodes.len();
        let mut i: usize = 0;
        while i < n
            invariant
                nodes@.len() == n,
                i <= n,
                forall|t: int| 0 <= t < cands@.len() ==> filtered_pair(nodes@, thr, #[trigger] cands@[t]),
                forall|t: int| 0 <= t < cands@.len() ==> (#[trigger] cands@[t]).1 < i,
                forall|a: int, b: int| 0 <= a < b < cands@.len() ==> cands@[a].1 < cands@[b].1,
                forall|j: int|
                    0 <= j < i && nodes@[j].1 <= thr ==> cands@.contains((nodes@[j].1, j as usize)),
            decreases n - i,
        {
            let load = nodes[i].1;
            if load <= thr {
                let ghost pre = cands@;
                cands.push((load, i));
                proof {
                    assert(cands@[pre.len() as int] == (load, i));
                    assert(cands@.contains((load, i)));
                    assert forall|j: int|
                        0 <= j < i && nodes@[j].1 <= thr implies cands@.contains(
                        (nodes@[j].1, j as usize),
                    ) by {
                        let e = (nodes@[j].1, j as usize);
                        assert(pre.contains(e));
                        let q = choose|q: int| 0 <= q < pre.len() && pre[q] == e;
                        assert(cands@[q] == e);
                    }
                }
            }
            i = i + 1;
        }
        if cands.len() == 0 {
            proof {
                assert forall|j: int| !candidate_at(nodes@, thr, j) by {
                    if candidate_at(nodes@, thr, j) {
                        assert(cands@.contains((nodes@[j].1, j as usize)));
                    }
                }
            }
            return Err(SelectorError::NoNodesAvailable);
        }
        let ghost cands0 = cands@;
        proof {
            assert(cands0.no_duplicates()) by {
                assert forall|a: int, b: int|
                    0 <= a < cands0.len() && 0 <= b < cands0.len() && a != b implies cands0[a]
                    != cands0[b] by {
                    if a < b {
                        assert(cands0[a].1 < cands0[b].1);
                    } else {
                        assert(cands0[b].1 < cands0[a].1);
                    }
                }
            }
            cands0.lemma_multiset_has_no_duplicates();
        }
        sort_pairs(&mut cands);
        proof {
            broadcast use vstd::seq_lib::group_to_multiset_ensures;

            assert forall|t: int| 0 <= t < cands@.len() implies filtered_pair(
                nodes@,
                thr,
                #[trigger] cands@[t],
            ) by {
                assert(cands@.to_multiset().count(cands@[t]) > 0);
                assert(cands0.contains(cands@[t]));
                let q = choose|q: int| 0 <= q < cands0.len() && cands0[q] == cands@[t];
                assert(filtered_pair(nodes@, thr, cands0[q]));
            }
            assert(forall|x: (u32, usize)|
                cands@.to_multiset().contains(x) ==> cands@.to_multiset().count(x) == 1);
            cands@.lemma_multiset_has_no_duplicates_conv();
            assert forall|j: int| candidate_at(nodes@, thr, j) implies cands@.contains(
                (nodes@[j].1, j as usize),
            ) by {
                assert(cands0.contains((nodes@[j].1, j as usize)));
                assert(cands0.to_multiset().count((nodes@[j].1, j as usize)) > 0);
            }
        }
        let kk = if k < cands.len() {
            k
        } else {
            cands.len()
        };
        let mut picked: Vec<usize> = Vec::new();
        let mut t: usize = 0;
        while t < kk
            invariant
                t <= kk <= cands@.len(),
                picked@.len() == t,
                forall|q: int| 0 <= q < t ==> picked@[q] == (#[trigger] cands@[q]).1,
            decreases kk - t,
        {
            let e = cands[t];
            picked.push(e.1);
            t = t + 1;
        }
        proof {
            let v = picked@;
            assert forall|t: int| 0 <= t < v.len() implies candidate_at(
                nodes@,
                thr,
                v[t] as int,
            ) by {
                assert(filtered_pair(nodes@, thr, cands@[t]));
                assert(v[t] == cands@[t].1);
            }
            assert forall|a: int, b: int| 0 <= a < b < v.len() implies score_before(
                nodes@,
                v[a] as int,
                v[b] as int,
            ) by {
                assert(filtered_pair(nodes@, thr, cands@[a]));
                assert(filtered_pair(nodes@, thr, cands@[b]));
                assert(pair_le(cands@[a], cands@[b]));
                assert(cands@[a] != cands@[b]);
            }
            assert forall|j: int|
                candidate_at(nodes@, thr, j) && !v.contains(j as usize) implies score_before(
                nodes@,
                v[v.len() - 1] as int,
                j,
            ) by {
                let e = (nodes@[j].1, j as usize);
                assert(cands@.contains(e));
                let q = choose|q: int| 0 <= q < cands@.len() && cands@[q] == e;
                if q < kk {
                    assert(v[q] == j as usize);
                    assert(v.contains(j as usize));
                } else {
                    assert(filtered_pair(nodes@, thr, cands@[kk - 1]));
                    assert(v[kk - 1] == cands@[kk - 1].1);
                    assert(pair_le(cands@[kk - 1], cands@[q]));
                    assert(cands@[kk - 1] != cands@[q]);
                }
            }
            assert forall|j: int|
                v.len() < k && candidate_at(nodes@, thr, j) implies v.contains(j as usize) by {
                let e = (nodes@[j].1, j as usize);
                assert(cands@.contains(e));
                let q = choose|q: int| 0 <= q < cands@.len() && cands@[q] == e;
                assert(kk == cands@.len());
                assert(v[q] == j as usize);
            }
        }
        Ok(picked)
    }

    /// Select one worker for placement: keep the nodes at or below the
    /// load threshold, order them by score, and pick uniformly at
    /// random among the best `max(1, cores / 2)`. Returns the index of
    /// the chosen node, or `NoNodesAvailable` when every node is above
    /// the threshold.
    pub fn select(&self, nodes: &Vec<(Process, u32)>) -> (r: Result<usize, SelectorError>)
        ensures
            r matches Ok(i) ==> candidate_at(nodes@, self.max_load_threshold, i as int),
            r is Err ==> r == Err::<usize, SelectorError>(SelectorError::NoNodesAvailable)
                && forall|j: int| !candidate_at(nodes@, self.max_load_threshold, j),
    {
        let cores = host::cpu_count();
        let mut k = cores / 2;
        if k == 0 {
            k = 1;
        }
        match self.top_candidates(nodes, k) {
            Err(e) => Err(e),
            Ok(v) => {
                let pi = host::random_index(v.len());
                Ok(v[pi])
            },
        }
    }

    /// Move the most recently admitted active worker back to the
    /// backup pool.
    pub fn scale_in(&mut self, main_pool: &mut Vec<Process>) -> (r: Result<(), ScaleError>)
        ensures
            old(main_pool)@.len() == 0 ==> r == Err::<(), ScaleError>(ScaleError::NoBackupNodes)
                && final(main_pool)@ == old(main_pool)@ && same_selector_state(*final(self), *old(self)),
            old(main_pool)@.len() > 0 ==> r == Ok::<(), ScaleError>(())
                && final(main_pool)@ == old(main_pool)@.drop_last()
                && final(self).backup_pool.nodes@ == old(self).backup_pool.nodes@.push(
                    old(main_pool)@.last(),
                )
                && final(self).backup_pool.warmup_ms == old(self).backup_pool.warmup_ms
                && final(self).total_tasks == old(self).total_tasks
                && final(self).total_duration == old(self).total_duration
                && final(self).tasks_submitted == old(self).tasks_submitted
                && final(self).scale_outs == old(self).scale_outs
                && final(self).check_interval_ms == old(self).check_interval_ms
                && final(self).max_load_threshold == old(self).max_load_threshold,
    {
        match main_pool.pop() {
            None => Err(ScaleError::NoBackupNodes),
            Some(node) => {
                self.backup_pool.add_node(node);
                Ok(())
            },
        }
    }

    /// Take one backup worker out for graduated promotion. Fails
    /// without touching any state when the backup pool is empty.
    pub fn scale_out_begin(&mut self) -> (r: Result<Process, ScaleError>)
        ensures
            old(self).backup_pool.nodes@.len() == 0 ==> (r matches Err(e)
                && e == ScaleError::NoBackupNodes && same_selector_state(*final(self), *old(self))),
            old(self).backup_pool.nodes@.len() > 0 ==> (r matches Ok(p)
                && p == old(self).backup_pool.nodes@.last()
                && final(self).backup_pool.nodes@ == old(self).backup_pool.nodes@.drop_last()
                && final(self).backup_pool.warmup_ms == old(self).backup_pool.warmup_ms
                && final(self).scale_outs == old(self).scale_outs
                && final(self).total_tasks == old(self).total_tasks
                && final(self).total_duration == old(self).total_duration
                && final(self).tasks_submitted == old(self).tasks_submitted
                && final(self).check_interval_ms == old(self).check_interval_ms
                && final(self).max_load_threshold == old(self).max_load_threshold),
    {
        match self.backup_pool.take_node() {
            None => Err(ScaleError::NoBackupNodes),
            Some(node) => Ok(node),
        }
    }

    /// The graduated warm-up: ten linear weight steps, each lasting a
    /// tenth of the configured warm-up duration, never rounded down to
    /// a zero-length step.
    pub fn warmup_plan(&self) -> (r: (u64, u64))
        ensures
            r.0 == 10u64,
            r.1 == if self.backup_pool.warmup_ms / 10 == 0 {
                1u64
            } else {
                self.backup_pool.warmup_ms / 10
            },
    {
        let step = self.backup_pool.warmup_ms / 10;
        if step == 0 {
            (10, 1)
        } else {
            (10, step)
        }
    }

    /// Admit a warmed-up worker to the active pool and count the
    /// completed scale-out.
    pub fn scale_out_admit(&mut self, main_pool: &mut Vec<Process>, node: Process)
        ensures
            final(main_pool)@ == old(main_pool)@.push(node),
            final(self).scale_outs == if old(self).scale_outs < u64::MAX {
                (old(self).scale_outs + 1) as u64
            } else {
                u64::MAX
            },
            final(self).backup_pool == old(self).backup_pool,
            final(self).total_tasks == old(self).total_tasks,
            final(self).total_duration == old(self).total_duration,
            final(self).tasks_submitted == old(self).tasks_submitted,
            final(self).check_interval_ms == old(self).check_interval_ms,
            final(self).max_load_threshold == old(self).max_load_threshold,
    {
        main_pool.push(node);
        if self.scale_outs < u64::MAX {
            self.scale_outs = self.scale_outs + 1;
        }
    }

    /// Promote one backup worker to the active pool. Fails with
    /// `NoBackupNodes`, touching nothing, when the backup pool is
    /// empty. The graduated warm-up pacing between `scale_out_begin`
    /// and `scale_out_admit` sits with the caller, which suspends for
    /// each step of `warmup_plan`.
    pub fn scale_out(&mut self, main_pool: &mut Vec<Process>) -> (r: Result<(), ScaleError>)
        ensures
            old(self).backup_pool.nodes@.len() == 0 ==> r == Err::<(), ScaleError>(
                ScaleError::NoBackupNodes,
            ) && same_selector_state(*final(self), *old(self)) && final(main_pool)@ == old(main_pool)@,
            old(self).backup_pool.nodes@.len() > 0 ==> r == Ok::<(), ScaleError>(())
                && final(main_pool)@ == old(main_pool)@.push(old(self).backup_pool.nodes@.last())
                && final(self).backup_pool.nodes@ == old(self).backup_pool.nodes@.drop_last()
                && final(self).backup_pool.warmup_ms == old(self).backup_pool.warmup_ms
                && final(self).total_tasks == old(self).total_tasks
                && final(self).total_duration == old(self).total_duration
                && final(self).tasks_submitted == old(self).tasks_submitted
                && final(self).check_interval_ms == old(self).check_interval_ms
                && final(self).max_load_threshold == old(self).max_load_threshold
                && final(self).scale_outs == if old(self).scale_outs < u64::MAX {
                    (old(self).scale_outs + 1) as u64
                } else {
                    u64::MAX
                },
    {
        match self.scale_out_begin() {
            Err(e) => Err(e),
            Ok(node) => {
                self.scale_out_admit(main_pool, node);
                Ok(())
            },
        }
    }
}

} // verus!
