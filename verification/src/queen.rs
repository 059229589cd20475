//! Coordinator-side worker registry: live worker records, health
//! reconciliation, dispatch admission and the optimal-worker query.
//!
//! The registry keeps insertion order, which also breaks score ties in
//! placement. All utilisation ratios are parts per million.

use vstd::prelude::*;
use vstd::string::*;
use crate::balancer::{combine_score, net_score_ppm};
use crate::health;
use crate::host;
use crate::proto::HealthState;
use crate::{Process, ProcessId, ProcessMessage, RegistrationError, MAX_MAIN_POOL_SIZE};

verus! {

/// Live metrics and health of one registered worker.
pub struct WorkerStatus {
    /// CPU utilisation in parts per million.
    pub cpu_usage: u32,
    /// Memory utilisation in parts per million.
    pub mem_usage: u32,
    /// One-way latency in milliseconds.
    pub net_latency: u32,
    /// Tasks currently dispatched to the worker.
    pub current_tasks: u32,
    /// Declared maximum concurrent task count. A declared 0 keeps the
    /// worker permanently overloaded; admission never dispatches to it.
    pub max_tasks: u32,
    /// Tri-state health.
    pub health_state: HealthState,
    /// Monotonic timestamp of the last received heartbeat, epoch ms.
    pub last_heartbeat: u64,
    /// Consecutive missed heartbeat deadlines.
    pub timeout_count: u32,
    /// When the worker first registered, epoch ms; survives
    /// re-registration.
    pub registered_at: u64,
    /// Capability tags declared at registration.
    pub capability: Vec<String>,
}

/// Both records carry the same data.
pub open spec fn same_status(a: WorkerStatus, b: WorkerStatus) -> bool {
    &&& a.cpu_usage == b.cpu_usage
    &&& a.mem_usage == b.mem_usage
    &&& a.net_latency == b.net_latency
    &&& a.current_tasks == b.current_tasks
    &&& a.max_tasks == b.max_tasks
    &&& a.health_state == b.health_state
    &&& a.last_heartbeat == b.last_heartbeat
    &&& a.timeout_count == b.timeout_count
    &&& a.registered_at == b.registered_at
    &&& a.capability.deep_view() == b.capability.deep_view()
}

impl WorkerStatus {
    /// A record is well formed when its ratios are in range.
    pub open spec fn wf(self) -> bool {
        &&& self.cpu_usage <= 1_000_000
        &&& self.mem_usage <= 1_000_000
    }
}

/// Instantaneous composite load score of a record: the weight
/// calculator's blend without smoothing, plus 10% of the concurrency
/// ratio. Lower is better. A record with no declared capacity counts
/// as saturated on the concurrency term.
pub open spec fn instant_score(st: WorkerStatus) -> int {
    combine_score(st.cpu_usage as int, st.mem_usage as int, net_score_ppm(st.net_latency)) + (
    if st.max_tasks == 0 {
        100_000
    } else {
        (100_000 * st.current_tasks) / st.max_tasks as int
    })
}

/// The instantaneous score as placement sees it, capped at full scale.
pub open spec fn clamped_score(st: WorkerStatus) -> u32 {
    if instant_score(st) > 1_000_000 {
        1_000_000u32
    } else {
        instant_score(st) as u32
    }
}

/// Copy the capability tags of a record.
fn clone_strings(v: &Vec<String>) -> (r: Vec<String>)
    ensures
        r.deep_view() == v.deep_view(),
{
    let mut r: Vec<String> = Vec::new();
    let mut i: usize = 0;
    while i < v.len()
        invariant
            i <= v@.len(),
            r@.len() == i,
            forall|q: int| 0 <= q < i ==> r@[q]@ == v@[q]@,
        decreases v@.len() - i,
    {
        r.push(v[i].clone());
        i = i + 1;
    }
    proof {
        assert(r.deep_view() =~= v.deep_view());
    }
    r
}

/// One registry entry: a worker id and its record.
pub struct StatusEntry {
    pub id: ProcessId,
    pub status: WorkerStatus,
}

/// The registry state: active pool, backup pool, and the record map.
pub struct PoolState {
    pub workers: Vec<Process>,
    pub backup_drones: Vec<Process>,
    pub status: Vec<StatusEntry>,
}

impl PoolState {
    /// An empty registry.
    pub fn new() -> (r: PoolState)
        ensures
            r.workers@.len() == 0,
            r.backup_drones@.len() == 0,
            r.status@.len() == 0,
    {
        PoolState { workers: Vec::new(), backup_drones: Vec::new(), status: Vec::new() }
    }
}

/// No two entries share an id.
pub open spec fn ids_unique(s: Seq<StatusEntry>) -> bool {
    forall|a: int, b: int| 0 <= a < b < s.len() ==> s[a].id@ != s[b].id@
}

/// Some entry carries this id.
pub open spec fn has_worker(s: Seq<StatusEntry>, id: Seq<char>) -> bool {
    exists|t: int| 0 <= t < s.len() && s[t].id@ == id
}

/// The entry at `t` is healthy.
pub open spec fn healthy_at(s: Seq<StatusEntry>, t: int) -> bool {
    0 <= t < s.len() && s[t].status.health_state == HealthState::Healthy
}

/// The id appears in the given pool.
pub open spec fn pool_has(pool: Seq<Process>, id: Seq<char>) -> bool {
    exists|i: int| 0 <= i < pool.len() && pool[i].id@ == id
}

/// A character is an ASCII decimal digit.
pub open spec fn digit_char(c: char) -> bool {
    48 <= c as u32 <= 57
}

/// An endpoint is acceptable when it is absent (the worker connected
/// inbound) or has the form `host:port` with a nonempty host and a
/// nonempty all-digit port.
pub open spec fn valid_endpoint(s: Seq<char>) -> bool {
    s.len() == 0 || exists|i: int|
        0 < i < s.len() - 1 && s[i] == ':' && forall|j: int|
            i < j < s.len() ==> digit_char(#[trigger] s[j])
}

/// Check an endpoint against `valid_endpoint`.
fn check_endpoint(s: &str) -> (r: bool)
    ensures
        r == valid_endpoint(s@),
{
    let n = s.unicode_len();
    if n == 0 {
        return true;
    }
    let mut colon: Option<usize> = None;
    let mut j: usize = 0;
    while j < n
        invariant
            j <= n,
            n == s@.len(),
            colon matches Some(c) ==> c < j && s@[c as int] == ':' && forall|t: int|
                c < t < j ==> s@[t] != ':',
            colon is None ==> forall|t: int| 0 <= t < j ==> s@[t] != ':',
        decreases n - j,
    {
        if s.get_char(j) == ':' {
            colon = Some(j);
        }
        j = j + 1;
    }
    match colon {
        None => {
            proof {
                assert forall|i: int| !(0 < i < s@.len() - 1 && s@[i] == ':') by {}
            }
            false
        },
        Some(c) => {
            if c == 0 || c + 1 >= n {
                return false;
            }
            let mut t: usize = c + 1;
            while t < n
                invariant
                    c + 1 <= t <= n,
                    n == s@.len(),
                    c < n,
                    s@[c as int] == ':',
                    forall|u: int| c < u < n ==> s@[u] != ':',
                    forall|u: int| c < u < t ==> digit_char(#[trigger] s@[u]),
                decreases n - t,
            {
                let ch = s.get_char(t);
                let v = ch as u32;
                if v < 48 || v > 57 {
                    proof {
                        assert forall|i: int|
                            0 < i < s@.len() - 1 && s@[i] == ':' implies !(forall|jj: int|
                            i < jj < s@.len() ==> digit_char(#[trigger] s@[jj])) by {
                            if i < c {
                                assert(!digit_char(s@[c as int]));
                            } else if i == c {
                                assert(!digit_char(s@[t as int]));
                            } else {
                                assert(s@[i] != ':');
                            }
                        }
                    }
                    return false;
                }
                t = t + 1;
            }
            proof {
                assert(0 < c < s@.len() - 1 && s@[c as int] == ':');
            }
            true
        },
    }
}

/// The record a (re-)registration installs: default metrics, healthy,
/// the heartbeat clock started at `now`.
pub open spec fn fresh_status(
    capability: Vec<String>,
    max_tasks: Option<u32>,
    now: u64,
    registered_at: u64,
) -> WorkerStatus {
    WorkerStatus {
        cpu_usage: 0,
        mem_usage: 0,
        net_latency: 10,
        current_tasks: 0,
        max_tasks: default_max_tasks(max_tasks),
        health_state: HealthState::Healthy,
        last_heartbeat: now,
        timeout_count: 0,
        registered_at,
        capability,
    }
}

/// The concurrency limit a registration declares: 10 when absent,
/// otherwise exactly the declared value. A declared 0 is kept: such a
/// worker is permanently overloaded and admission never dispatches to
/// it.
pub open spec fn default_max_tasks(m: Option<u32>) -> u32 {
    match m {
        None => 10u32,
        Some(v) => v,
    }
}

/// A record as a registration installs it for this worker: default
/// metrics, healthy, the miss counter cleared, the given registration
/// timestamp kept. What the wall clock read is not named.
pub open spec fn refreshed_record(st: WorkerStatus, drone: Process, registered_at: u64) -> bool {
    &&& st.cpu_usage == 0
    &&& st.mem_usage == 0
    &&& st.net_latency == 10
    &&& st.current_tasks == 0
    &&& st.max_tasks == default_max_tasks(drone.max_tasks)
    &&& st.health_state == HealthState::Healthy
    &&& st.timeout_count == 0
    &&& st.registered_at == registered_at
    &&& st.capability.deep_view() == drone.capability.deep_view()
}

/// A record as a heartbeat leaves it: fresh metrics, the miss counter
/// cleared, and health from the overload rule; a tripped circuit
/// breaker stays tripped.
pub open spec fn heartbeat_applied(
    st: WorkerStatus,
    cpu: u32,
    mem: u32,
    net_latency: u32,
    current_tasks: u32,
    now: u64,
) -> WorkerStatus {
    WorkerStatus {
        cpu_usage: cpu,
        mem_usage: mem,
        net_latency,
        current_tasks,
        timeout_count: 0,
        last_heartbeat: now,
        health_state: health::heartbeat_transition(
            st.health_state,
            cpu,
            mem,
            current_tasks,
            st.max_tasks,
        ),
        ..st
    }
}

/// A record as a reconciliation tick leaves it: untouched unless its
/// heartbeat deadline passed, in which case the miss counter grows and
/// health degrades, tripping the circuit breaker at the third miss.
pub open spec fn deadline_applied(st: WorkerStatus, now: u64) -> WorkerStatus {
    if st.health_state == HealthState::CircuitBreaker || !health::deadline_passed(
        st.last_heartbeat,
        now,
    ) {
        st
    } else {
        WorkerStatus {
            timeout_count: health::deadline_transition(st.health_state, st.timeout_count).1,
            health_state: health::deadline_transition(st.health_state, st.timeout_count).0,
            ..st
        }
    }
}

/// Replacing one entry with a well-formed record under the same id
/// keeps the registry invariant.
proof fn lemma_wf_after_entry_update(pre: DronePool, post: DronePool, t: int)
    requires
        pre.wf(),
        post.state.workers@ == pre.state.workers@,
        post.state.backup_drones@ == pre.state.backup_drones@,
        0 <= t < pre.state.status@.len(),
        post.state.status@ == pre.state.status@.update(t, post.state.status@[t]),
        post.state.status@[t].id@ == pre.state.status@[t].id@,
        post.state.status@[t].status.wf(),
    ensures
        post.wf(),
{
    assert(forall|q: int|
        0 <= q < post.state.status@.len() ==> (#[trigger] post.state.status@[q]).id@
            == pre.state.status@[q].id@);
    assert forall|i: int| 0 <= i < post.state.workers@.len() implies has_worker(
        post.state.status@,
        (#[trigger] post.state.workers@[i]).id@,
    ) by {
        let w = choose|w: int|
            0 <= w < pre.state.status@.len() && pre.state.status@[w].id@
                == pre.state.workers@[i].id@;
        assert(post.state.status@[w].id@ == pre.state.workers@[i].id@);
    }
    assert forall|i: int| 0 <= i < post.state.backup_drones@.len() implies has_worker(
        post.state.status@,
        (#[trigger] post.state.backup_drones@[i]).id@,
    ) by {
        let w = choose|w: int|
            0 <= w < pre.state.status@.len() && pre.state.status@[w].id@
                == pre.state.backup_drones@[i].id@;
        assert(post.state.status@[w].id@ == pre.state.backup_drones@[i].id@);
    }
}

/// Some entry carries this id and is not healthy.
pub open spec fn has_unhealthy_entry(s: Seq<StatusEntry>, id: Seq<char>) -> bool {
    exists|t: int|
        0 <= t < s.len() && (#[trigger] s[t]).id@ == id && s[t].status.health_state
            != HealthState::Healthy
}

/// Every id in `ids` names a registry entry that is not healthy.
pub open spec fn all_unhealthy_ids(s: Seq<StatusEntry>, ids: Seq<String>) -> bool {
    forall|q: int| #![trigger ids[q]]
        0 <= q < ids.len() ==> has_unhealthy_entry(s, ids[q]@)
}

/// The worker registry with its active and backup pools.
pub struct DronePool {
    /// The address the routing layer binds for this pool.
    pub bind_addr: String,
    pub state: PoolState,
}

impl DronePool {
    /// Registry invariant: unique ids, a bounded active pool, every
    /// pool member on record, every record in exactly one pool, and
    /// well-formed records.
    pub open spec fn wf(self) -> bool {
        &&& ids_unique(self.state.status@)
        &&& self.state.workers@.len() <= MAX_MAIN_POOL_SIZE
        &&& forall|i: int|
            0 <= i < self.state.workers@.len() ==> has_worker(
                self.state.status@,
                (#[trigger] self.state.workers@[i]).id@,
            )
        &&& forall|i: int|
            0 <= i < self.state.backup_drones@.len() ==> has_worker(
                self.state.status@,
                (#[trigger] self.state.backup_drones@[i]).id@,
            )
        &&& forall|t: int|
            0 <= t < self.state.status@.len() ==> (#[trigger] self.state.status@[t]).status.wf()
        &&& forall|t: int|
            0 <= t < self.state.status@.len() ==> (pool_has(
                self.state.workers@,
                (#[trigger] self.state.status@[t]).id@,
            ) || pool_has(self.state.backup_drones@, self.state.status@[t].id@))
        &&& forall|i: int, j: int|
            0 <= i < self.state.workers@.len() && 0 <= j < self.state.backup_drones@.len()
                ==> (#[trigger] self.state.workers@[i]).id@ != (
            #[trigger] self.state.backup_drones@[j]).id@
        &&& forall|i: int, j: int|
            0 <= i < j < self.state.workers@.len() ==> (#[trigger] self.state.workers@[i]).id@ != (
            #[trigger] self.state.workers@[j]).id@
        &&& forall|i: int, j: int|
            0 <= i < j < self.state.backup_drones@.len() ==> (
            #[trigger] self.state.backup_drones@[i]).id@ != (
            #[trigger] self.state.backup_drones@[j]).id@
    }

    /// An empty registry that remembers the address its routing layer
    /// should bind.
    pub fn new(bind_addr: String) -> (r: DronePool)
        ensures
            r.wf(),
            r.bind_addr@ == bind_addr@,
            r.state.workers@.len() == 0,
            r.state.backup_drones@.len() == 0,
            r.state.status@.len() == 0,
    {
        DronePool { bind_addr, state: PoolState::new() }
    }

    /// Index of the entry carrying this id, if any.
    fn find_entry(&self, id: &String) -> (r: Option<usize>)
        ensures
            r matches Some(t) ==> t < self.state.status@.len() && self.state.status@[
                t as int
            ].id@ == id@,
            r is None ==> !has_worker(self.state.status@, id@),
    {
        let mut t: usize = 0;
        let n = self.state.status.len();
        while t < n
            invariant
                t <= n,
                n == self.state.status@.len(),
                forall|q: int| 0 <= q < t ==> (#[trigger] self.state.status@[q]).id@ != id@,
            decreases n - t,
        {
            if self.state.status[t].id == *id {
                return Some(t);
            }
            t = t + 1;
        }
        None
    }

    /// Number of workers in the active pool.
    pub fn get_worker_count(&self) -> (r: usize)
        ensures
            r == self.state.workers@.len(),
    {
        self.state.workers.len()
    }

    /// Register a worker at a given time. A malformed callback
    /// endpoint is rejected untouched. Re-registering an id keeps the
    /// single existing entry and its original registration timestamp,
    /// resets the metrics, and moves no worker between pools. A new id
    /// joins the active pool while it has room, the backup pool
    /// otherwise.
    pub fn register_at(&mut self, drone: Process, now: u64) -> (r: Result<(), RegistrationError>)
        requires
            old(self).wf(),
        ensures
            final(self).wf(),
            final(self).bind_addr@ == old(self).bind_addr@,
            !valid_endpoint(drone.endpoint@) ==> r == Err::<(), RegistrationError>(
                RegistrationError::InvalidEndpoint,
            ) && final(self).state.status@ == old(self).state.status@
                && final(self).state.workers@ == old(self).state.workers@
                && final(self).state.backup_drones@ == old(self).state.backup_drones@,
            valid_endpoint(drone.endpoint@) ==> r == Ok::<(), RegistrationError>(()),
            valid_endpoint(drone.endpoint@) && has_worker(old(self).state.status@, drone.id@) ==> ({
                &&& final(self).state.status@.len() == old(self).state.status@.len()
                &&& final(self).state.workers@ == old(self).state.workers@
                &&& final(self).state.backup_drones@ == old(self).state.backup_drones@
                &&& forall|q: int|
                    0 <= q < old(self).state.status@.len() && (#[trigger] old(self).state.status@[q]).id@ != drone.id@ ==> final(self).state.status@[q] == old(self).state.status@[q]
                &&& forall|q: int|
                    0 <= q < old(self).state.status@.len() && (#[trigger] old(self).state.status@[q]).id@ == drone.id@ ==> final(self).state.status@[q].id@
                        == drone.id@ && same_status(
                        final(self).state.status@[q].status,
                        fresh_status(
                            drone.capability,
                            drone.max_tasks,
                            now,
                            old(self).state.status@[q].status.registered_at,
                        ),
                    )
            }),
            valid_endpoint(drone.endpoint@) && !has_worker(old(self).state.status@, drone.id@)
                ==> ({
                &&& final(self).state.status@.len() == old(self).state.status@.len() + 1
                &&& forall|q: int|
                    0 <= q < old(self).state.status@.len() ==> final(self).state.status@[q] == old(self).state.status@[q]
                &&& final(self).state.status@.last().id@ == drone.id@
                &&& same_status(
                    final(self).state.status@.last().status,
                    fresh_status(drone.capability, drone.max_tasks, now, now),
                )
                &&& old(self).state.workers@.len() < MAX_MAIN_POOL_SIZE ==> final(self).state.workers@ == old(self).state.workers@.push(drone) && final(self).state.backup_drones@ == old(self).state.backup_drones@
                &&& old(self).state.workers@.len() >= MAX_MAIN_POOL_SIZE ==> final(self).state.backup_drones@ == old(self).state.backup_drones@.push(drone) && final(self).state.workers@ == old(self).state.workers@
            }),
    {
        if !check_endpoint(drone.endpoint.as_str()) {
            return Err(RegistrationError::InvalidEndpoint);
        }
        let max_tasks = match drone.max_tasks {
            None => 10,
            Some(v) => v,
        };
        match self.find_entry(&drone.id) {
            Some(t) => {
                let kept = self.state.status[t].status.registered_at;
                let entry = StatusEntry {
                    id: drone.id,
                    status: WorkerStatus {
                        cpu_usage: 0,
                        mem_usage: 0,
                        net_latency: 10,
                        current_tasks: 0,
                        max_tasks,
                        health_state: HealthState::Healthy,
                        last_heartbeat: now,
                        timeout_count: 0,
                        registered_at: kept,
                        capability: drone.capability,
                    },
                };
                let ghost pre_pool = *self;
                self.state.status[t] = entry;
                proof {
                    lemma_wf_after_entry_update(pre_pool, *self, t as int);
                }
                Ok(())
            },
            None => {
                let entry = StatusEntry {
                    id: drone.id.clone(),
                    status: WorkerStatus {
                        cpu_usage: 0,
                        mem_usage: 0,
                        net_latency: 10,
                        current_tasks: 0,
                        max_tasks,
                        health_state: HealthState::Healthy,
                        last_heartbeat: now,
                        timeout_count: 0,
                        registered_at: now,
                        capability: clone_strings(&drone.capability),
                    },
                };
                self.state.status.push(entry);
                if self.state.workers.len() < MAX_MAIN_POOL_SIZE {
                    self.state.workers.push(drone);
                } else {
                    self.state.backup_drones.push(drone);
                }
                proof {
                    let pre = *old(self);
                    let m = pre.state.status@.len() as int;
                    assert forall|a: int| 0 <= a < m implies (#[trigger] pre.state.status@[a]).id@
                        != drone.id@ by {
                        if pre.state.status@[a].id@ == drone.id@ {
                            assert(has_worker(pre.state.status@, drone.id@));
                        }
                    }
                    assert forall|i: int| 0 <= i < self.state.workers@.len() implies has_worker(
                        self.state.status@,
                        (#[trigger] self.state.workers@[i]).id@,
                    ) by {
                        if i < pre.state.workers@.len() {
                            let w = choose|w: int|
                                0 <= w < m && pre.state.status@[w].id@
                                    == pre.state.workers@[i].id@;
                            assert(self.state.status@[w].id@ == pre.state.workers@[i].id@);
                        } else {
                            assert(self.state.status@[m].id@ == drone.id@);
                        }
                    }
                    assert forall|i: int|
                        0 <= i < self.state.backup_drones@.len() implies has_worker(
                        self.state.status@,
                        (#[trigger] self.state.backup_drones@[i]).id@,
                    ) by {
                        if i < pre.state.backup_drones@.len() {
                            let w = choose|w: int|
                                0 <= w < m && pre.state.status@[w].id@
                                    == pre.state.backup_drones@[i].id@;
                            assert(self.state.status@[w].id@ == pre.state.backup_drones@[i].id@);
                        } else {
                            assert(self.state.status@[m].id@ == drone.id@);
                        }
                    }
                    assert forall|q: int| 0 <= q < self.state.status@.len() implies (pool_has(
                        self.state.workers@,
                        (#[trigger] self.state.status@[q]).id@,
                    ) || pool_has(self.state.backup_drones@, self.state.status@[q].id@)) by {
                        if q < m {
                            if pool_has(pre.state.workers@, pre.state.status@[q].id@) {
                                let w = choose|w: int|
                                    0 <= w < pre.state.workers@.len()
                                        && pre.state.workers@[w].id@ == pre.state.status@[q].id@;
                                assert(self.state.workers@[w].id@ == self.state.status@[q].id@);
                            } else {
                                let w = choose|w: int|
                                    0 <= w < pre.state.backup_drones@.len()
                                        && pre.state.backup_drones@[w].id@
                                        == pre.state.status@[q].id@;
                                assert(self.state.backup_drones@[w].id@
                                    == self.state.status@[q].id@);
                            }
                        } else {
                            if pre.state.workers@.len() < MAX_MAIN_POOL_SIZE {
                                assert(self.state.workers@.last().id@ == drone.id@);
                            } else {
                                assert(self.state.backup_drones@.last().id@ == drone.id@);
                            }
                        }
                    }
                    assert forall|i: int|
                        0 <= i < pre.state.workers@.len() implies (#[trigger] pre.state.workers@[
                        i]).id@ != drone.id@ by {
                        let w = choose|w: int|
                            0 <= w < m && pre.state.status@[w].id@ == pre.state.workers@[i].id@;
                    }
                    assert forall|i: int|
                        0 <= i < pre.state.backup_drones@.len() implies (
                    #[trigger] pre.state.backup_drones@[i]).id@ != drone.id@ by {
                        let w = choose|w: int|
                            0 <= w < m && pre.state.status@[w].id@
                                == pre.state.backup_drones@[i].id@;
                    }
                }
                Ok(())
            },
        }
    }

    /// Register a worker, stamping it with the wall clock. The record
    /// the clock timestamps is exactly `register_at`'s: a known id
    /// keeps its single entry and original registration timestamp with
    /// the metrics reset, other entries untouched; a new id gains one
    /// fresh healthy entry and joins the active pool while it has
    /// room, the backup pool otherwise.
    pub fn register_drone(&mut self, drone: Process) -> (r: Result<(), RegistrationError>)
        requires
            old(self).wf(),
        ensures
            final(self).wf(),
            final(self).bind_addr@ == old(self).bind_addr@,
            !valid_endpoint(drone.endpoint@) ==> r == Err::<(), RegistrationError>(
                RegistrationError::InvalidEndpoint,
            ) && final(self).state.status@ == old(self).state.status@
                && final(self).state.workers@ == old(self).state.workers@
                && final(self).state.backup_drones@ == old(self).state.backup_drones@,
            valid_endpoint(drone.endpoint@) ==> r == Ok::<(), RegistrationError>(()),
            valid_endpoint(drone.endpoint@) && has_worker(old(self).state.status@, drone.id@) ==> ({
                &&& final(self).state.status@.len() == old(self).state.status@.len()
                &&& final(self).state.workers@ == old(self).state.workers@
                &&& final(self).state.backup_drones@ == old(self).state.backup_drones@
                &&& forall|q: int|
                    0 <= q < old(self).state.status@.len() && (#[trigger] old(self).state.status@[q]).id@ != drone.id@ ==> final(self).state.status@[q] == old(self).state.status@[q]
                &&& forall|q: int|
                    0 <= q < old(self).state.status@.len() && (#[trigger] old(self).state.status@[q]).id@ == drone.id@ ==> final(self).state.status@[q].id@
                        == drone.id@ && refreshed_record(
                        final(self).state.status@[q].status,
                        drone,
                        old(self).state.status@[q].status.registered_at,
                    )
            }),
            valid_endpoint(drone.endpoint@) && !has_worker(old(self).state.status@, drone.id@)
                ==> ({
                &&& final(self).state.status@.len() == old(self).state.status@.len() + 1
                &&& forall|q: int|
                    0 <= q < old(self).state.status@.len() ==> final(self).state.status@[q] == old(self).state.status@[q]
                &&& final(self).state.status@.last().id@ == drone.id@
                &&& refreshed_record(
                    final(self).state.status@.last().status,
                    drone,
                    final(self).state.status@.last().status.last_heartbeat,
                )
                &&& old(self).state.workers@.len() < MAX_MAIN_POOL_SIZE ==> ({
                    &&& final(self).state.workers@.len() == old(self).state.workers@.len() + 1
                    &&& final(self).state.workers@.last().id@ == drone.id@
                    &&& forall|q: int|
                        0 <= q < old(self).state.workers@.len() ==> final(self).state.workers@[q]
                            == old(self).state.workers@[q]
                    &&& final(self).state.backup_drones@ == old(self).state.backup_drones@
                })
                &&& old(self).state.workers@.len() >= MAX_MAIN_POOL_SIZE ==> ({
                    &&& final(self).state.backup_drones@.len() == old(self).state.backup_drones@.len() + 1
                    &&& final(self).state.backup_drones@.last().id@ == drone.id@
                    &&& forall|q: int|
                        0 <= q < old(self).state.backup_drones@.len() ==> final(self).state.backup_drones@[q] == old(self).state.backup_drones@[q]
                    &&& final(self).state.workers@ == old(self).state.workers@
                })
            }),
    {
        let now = host::now_millis();
        self.register_at(drone, now)
    }

    /// Apply a heartbeat's telemetry to the carrying worker's record,
    /// ratios clamped to full scale. Unknown ids are ignored.
    pub fn update_worker_metrics(
        &mut self,
        drone_id: &String,
        cpu_usage: u32,
        mem_usage: u32,
        net_latency: u32,
        current_tasks: u32,
        now: u64,
    )
        requires
            old(self).wf(),
            cpu_usage <= 1_000_000,
            mem_usage <= 1_000_000,
        ensures
            final(self).wf(),
            final(self).bind_addr@ == old(self).bind_addr@,
            final(self).state.workers@ == old(self).state.workers@,
            final(self).state.backup_drones@ == old(self).state.backup_drones@,
            final(self).state.status@.len() == old(self).state.status@.len(),
            forall|q: int|
                0 <= q < old(self).state.status@.len() && (#[trigger] old(self).state.status@[q]).id@ != drone_id@ ==> final(self).state.status@[q] == old(self).state.status@[q],
            forall|q: int|
                0 <= q < old(self).state.status@.len() && (#[trigger] old(self).state.status@[q]).id@ == drone_id@ ==> final(self).state.status@[q].id@
                    == drone_id@ && same_status(
                    final(self).state.status@[q].status,
                    heartbeat_applied(
                        old(self).state.status@[q].status,
                        cpu_usage,
                        mem_usage,
                        net_latency,
                        current_tasks,
                        now,
                    ),
                ),
    {
        match self.find_entry(drone_id) {
            None => {},
            Some(t) => {
                let prev = self.state.status[t].status.health_state;
                let max_tasks = self.state.status[t].status.max_tasks;
                let next = health::health_on_heartbeat(
                    prev,
                    cpu_usage,
                    mem_usage,
                    current_tasks,
                    max_tasks,
                );
                let registered_at = self.state.status[t].status.registered_at;
                let capability = clone_strings(&self.state.status[t].status.capability);
                let id = self.state.status[t].id.clone();
                let entry = StatusEntry {
                    id,
                    status: WorkerStatus {
                        cpu_usage,
                        mem_usage,
                        net_latency,
                        current_tasks,
                        max_tasks,
                        health_state: next,
                        last_heartbeat: now,
                        timeout_count: 0,
                        registered_at,
                        capability,
                    },
                };
                let ghost pre_pool = *self;
                self.state.status[t] = entry;
                proof {
                    lemma_wf_after_entry_update(pre_pool, *self, t as int);
                }
            },
        }
    }

    /// Reconcile every record against the heartbeat deadline: a record
    /// past the deadline gains a miss and degrades, tripping the
    /// circuit breaker at the third consecutive miss.
    pub fn check_deadlines(&mut self, now: u64)
        requires
            old(self).wf(),
        ensures
            final(self).wf(),
            final(self).bind_addr@ == old(self).bind_addr@,
            final(self).state.workers@ == old(self).state.workers@,
            final(self).state.backup_drones@ == old(self).state.backup_drones@,
            final(self).state.status@.len() == old(self).state.status@.len(),
            forall|q: int|
                0 <= q < old(self).state.status@.len() ==> final(self).state.status@[q].id@ == (
                #[trigger] old(self).state.status@[q]).id@ && same_status(
                    final(self).state.status@[q].status,
                    deadline_applied(old(self).state.status@[q].status, now),
                ),
    {
        let n = self.state.status.len();
        let mut t: usize = 0;
        while t < n
            invariant
                t <= n,
                self.wf(),
                self.bind_addr@ == old(self).bind_addr@,
                n == self.state.status@.len(),
                self.state.workers@ == old(self).state.workers@,
                self.state.backup_drones@ == old(self).state.backup_drones@,
                self.state.status@.len() == old(self).state.status@.len(),
                forall|q: int|
                    t <= q < n ==> self.state.status@[q] == old(self).state.status@[q],
                forall|q: int|
                    0 <= q < t ==> self.state.status@[q].id@ == (#[trigger] old(self).state.status@[q]).id@ && same_status(
                        self.state.status@[q].status,
                        deadline_applied(old(self).state.status@[q].status, now),
                    ),
            decreases n - t,
        {
            let st_health = self.state.status[t].status.health_state;
            let last = self.state.status[t].status.last_heartbeat;
            let expired = st_health != HealthState::CircuitBreaker && now > last && now - last
                > health::T_MISS_MS;
            if expired {
                let misses = self.state.status[t].status.timeout_count;
                let (next, m) = health::health_on_missed_deadline(st_health, misses);
                let cpu_usage = self.state.status[t].status.cpu_usage;
                let mem_usage = self.state.status[t].status.mem_usage;
                let net_latency = self.state.status[t].status.net_latency;
                let current_tasks = self.state.status[t].status.current_tasks;
                let max_tasks = self.state.status[t].status.max_tasks;
                let registered_at = self.state.status[t].status.registered_at;
                let capability = clone_strings(&self.state.status[t].status.capability);
                let id = self.state.status[t].id.clone();
                let entry = StatusEntry {
                    id,
                    status: WorkerStatus {
                        cpu_usage,
                        mem_usage,
                        net_latency,
                        current_tasks,
                        max_tasks,
                        health_state: next,
                        last_heartbeat: last,
                        timeout_count: m,
                        registered_at,
                        capability,
                    },
                };
                let ghost pre_pool = *self;
                self.state.status[t] = entry;
                proof {
                    lemma_wf_after_entry_update(pre_pool, *self, t as int);
                }
            }
            t = t + 1;
        }
    }

    /// Admit one task dispatch to the worker: succeeds only for a
    /// healthy worker below its concurrency limit, and never pushes a
    /// record past that limit.
    pub fn record_dispatch(&mut self, drone_id: &String) -> (r: bool)
        requires
            old(self).wf(),
        ensures
            final(self).wf(),
            final(self).bind_addr@ == old(self).bind_addr@,
            final(self).state.workers@ == old(self).state.workers@,
            final(self).state.backup_drones@ == old(self).state.backup_drones@,
            final(self).state.status@.len() == old(self).state.status@.len(),
            r == exists|t: int|
                0 <= t < old(self).state.status@.len() && (#[trigger] old(self).state.status@[t]).id@ == drone_id@ && old(self).state.status@[t].status.health_state
                    == HealthState::Healthy && old(self).state.status@[t].status.current_tasks < old(self).state.status@[t].status.max_tasks,
            forall|q: int|
                0 <= q < old(self).state.status@.len() && (#[trigger] old(self).state.status@[q]).id@ != drone_id@ ==> final(self).state.status@[q] == old(self).state.status@[q],
            !r ==> final(self).state.status@ == old(self).state.status@,
            r ==> forall|q: int|
                0 <= q < old(self).state.status@.len() && (#[trigger] old(self).state.status@[q]).id@ == drone_id@ ==> final(self).state.status@[q].id@
                    == drone_id@ && same_status(
                    final(self).state.status@[q].status,
                    WorkerStatus {
                        current_tasks: (old(self).state.status@[q].status.current_tasks + 1) as u32,
                        ..old(self).state.status@[q].status
                    },
                ) && final(self).state.status@[q].status.current_tasks <= final(self).state.status@[q].status.max_tasks,
    {
        match self.find_entry(drone_id) {
            None => false,
            Some(t) => {
                let healthy = self.state.status[t].status.health_state == HealthState::Healthy;
                let current = self.state.status[t].status.current_tasks;
                let maxt = self.state.status[t].status.max_tasks;
                if healthy && current < maxt {
                    let cpu_usage = self.state.status[t].status.cpu_usage;
                    let mem_usage = self.state.status[t].status.mem_usage;
                    let net_latency = self.state.status[t].status.net_latency;
                    let last_heartbeat = self.state.status[t].status.last_heartbeat;
                    let timeout_count = self.state.status[t].status.timeout_count;
                    let registered_at = self.state.status[t].status.registered_at;
                    let capability = clone_strings(&self.state.status[t].status.capability);
                    let id = self.state.status[t].id.clone();
                    let entry = StatusEntry {
                        id,
                        status: WorkerStatus {
                            cpu_usage,
                            mem_usage,
                            net_latency,
                            current_tasks: current + 1,
                            max_tasks: maxt,
                            health_state: HealthState::Healthy,
                            last_heartbeat,
                            timeout_count,
                            registered_at,
                            capability,
                        },
                    };
                    let ghost pre_pool = *self;
                    self.state.status[t] = entry;
                    proof {
                        lemma_wf_after_entry_update(pre_pool, *self, t as int);
                    }
                    true
                } else {
                    false
                }
            },
        }
    }

    /// Instantaneous score of the record at an index.
    fn score_at(&self, t: usize) -> (r: u64)
        requires
            t < self.state.status@.len(),
            self.wf(),
        ensures
            r as int == instant_score(self.state.status@[t as int].status),
    {
        let st = &self.state.status[t].status;
        let net: u32 = if st.net_latency >= 1000 {
            0
        } else {
            (1000 - st.net_latency) * 1000
        };
        let blend: u64 = (6 * (st.cpu_usage as u64) + 3 * (st.mem_usage as u64) + net as u64) / 10;
        // A worker with no declared capacity counts as saturated on the
        // concurrency term.
        let ratio: u64 = if st.max_tasks == 0 {
            100_000
        } else {
            (100_000u64 * (st.current_tasks as u64)) / (st.max_tasks as u64)
        };
        blend + ratio
    }

    /// The healthy worker with the lowest instantaneous score, if any
    /// worker is healthy at all. A worker whose circuit breaker
    /// tripped is never returned.
    pub fn get_optimal_worker(&self) -> (r: Option<ProcessId>)
        requires
            self.wf(),
        ensures
            r is None <==> (forall|t: int| !healthy_at(self.state.status@, t)),
            r matches Some(id) ==> exists|t: int|
                healthy_at(self.state.status@, t) && (#[trigger] self.state.status@[t]).id@ == id@
                    && forall|q: int|
                    healthy_at(self.state.status@, q) ==> instant_score(
                        self.state.status@[t].status,
                    ) <= instant_score(self.state.status@[q].status),
    {
        let n = self.state.status.len();
        let mut best: Option<usize> = None;
        let mut best_score: u64 = 0;
        let mut t: usize = 0;
        while t < n
            invariant
                t <= n,
                self.wf(),
                n == self.state.status@.len(),
                best is None ==> forall|q: int| 0 <= q < t ==> !healthy_at(self.state.status@, q),
                best matches Some(b) ==> b < t && healthy_at(self.state.status@, b as int)
                    && best_score as int == instant_score(self.state.status@[b as int].status)
                    && forall|q: int|
                    0 <= q < t && healthy_at(self.state.status@, q) ==> best_score as int
                        <= instant_score(self.state.status@[q].status),
            decreases n - t,
        {
            if self.state.status[t].status.health_state == HealthState::Healthy {
                let sc = self.score_at(t);
                match best {
                    None => {
                        best = Some(t);
                        best_score = sc;
                    },
                    Some(_) => {
                        if sc < best_score {
                            best = Some(t);
                            best_score = sc;
                        }
                    },
                }
            }
            t = t + 1;
        }
        match best {
            None => None,
            Some(b) => Some(self.state.status[b].id.clone()),
        }
    }

    /// Ids of every worker whose record is not healthy.
    #[verifier::rlimit(100)]
    pub fn get_unhealthy_drones(&self) -> (r: Vec<ProcessId>)
        requires
            self.wf(),
        ensures
            all_unhealthy_ids(self.state.status@, r@),
            forall|a: int, b: int| 0 <= a < b < r@.len() ==> (#[trigger] r@[a])@ != (
            #[trigger] r@[b])@,
            forall|t: int|
                0 <= t < self.state.status@.len() && (#[trigger] self.state.status@[t]).status.health_state
                    != HealthState::Healthy ==> exists|q: int|
                    0 <= q < r@.len() && (#[trigger] r@[q])@ == self.state.status@[t].id@,
    {
        let n = self.state.status.len();
        let mut r: Vec<ProcessId> = Vec::new();
        let ghost mut wit: Seq<int> = Seq::empty();
        let ghost mut back: Seq<int> = Seq::empty();
        let mut t: usize = 0;
        while t < n
            invariant
                t <= n,
                n == self.state.status@.len(),
                wit.len() == r@.len(),
                back.len() == t,
                forall|q: int| #![trigger wit[q]]
                    0 <= q < r@.len() ==> 0 <= wit[q] < n && r@[q]@
                        == self.state.status@[wit[q]].id@ && self.state.status@[
                        wit[q]
                    ].status.health_state != HealthState::Healthy && wit[q] < t,
                forall|a: int, b: int| #![trigger wit[a], wit[b]] 0 <= a < b < wit.len() ==> wit[a] < wit[b],
                forall|u: int| #![trigger back[u]]
                    0 <= u < t && self.state.status@[u].status.health_state
                        != HealthState::Healthy ==> 0 <= back[u] < r@.len() && r@[back[u]]@
                        == self.state.status@[u].id@,
            decreases n - t,
        {
            if !(self.state.status[t].status.health_state == HealthState::Healthy) {
                let ghost pre = r@;
                r.push(self.state.status[t].id.clone());
                proof {
                    let ghost wit0 = wit;
                    let ghost back0 = back;
                    wit = wit.push(t as int);
                    back = back.push(pre.len() as int);
                    assert(r@[pre.len() as int]@ == self.state.status@[t as int].id@);
                    assert forall|q: int| #![trigger wit[q]] 0 <= q < r@.len() implies 0 <= wit[
                        q
                    ] < n && r@[q]@ == self.state.status@[wit[q]].id@ && self.state.status@[
                        wit[q]
                    ].status.health_state != HealthState::Healthy && wit[q] < t + 1 by {
                        if q < pre.len() {
                            assert(r@[q] == pre[q]);
                            assert(wit[q] == wit0[q]);
                        } else {
                            assert(wit[q] == t as int);
                        }
                    }
                    assert forall|a: int, b: int| #![trigger wit[a], wit[b]] 0 <= a < b < wit.len() implies wit[a] < wit[b] by {
                        if b < wit0.len() {
                            assert(wit[a] == wit0[a] && wit[b] == wit0[b]);
                        } else {
                            assert(wit[b] == t as int);
                            assert(wit[a] == wit0[a] && wit0[a] < t);
                        }
                    }
                    assert forall|u: int| #![trigger back[u]]
                        0 <= u < t + 1 && self.state.status@[u].status.health_state
                            != HealthState::Healthy implies 0 <= back[u] < r@.len() && r@[
                        back[u]
                    ]@ == self.state.status@[u].id@ by {
                        if u < t {
                            assert(back[u] == back0[u]);
                            assert(0 <= back0[u] < pre.len());
                            assert(r@[back0[u]] == pre[back0[u]]);
                        } else {
                            assert(back[u] == pre.len() as int);
                        }
                    }
                }
            } else {
                proof {
                    back = back.push(-1);
                }
            }
            t = t + 1;
        }
        proof {
            assert forall|q: int| #![trigger r@[q]] 0 <= q < r@.len() implies has_unhealthy_entry(
                self.state.status@,
                r@[q]@,
            ) by {
                assert(0 <= wit[q] < n && self.state.status@[wit[q]].id@ == r@[q]@
                    && self.state.status@[wit[q]].status.health_state != HealthState::Healthy);
            }
            assert(all_unhealthy_ids(self.state.status@, r@));
            assert forall|u: int|
                0 <= u < self.state.status@.len() && (#[trigger] self.state.status@[u]).status.health_state
                    != HealthState::Healthy implies exists|q: int|
                0 <= q < r@.len() && (#[trigger] r@[q])@ == self.state.status@[u].id@ by {
                assert(0 <= back[u] < r@.len() && r@[back[u]]@ == self.state.status@[u].id@);
            }
            assert forall|a: int, b: int| 0 <= a < b < r@.len() implies (#[trigger] r@[a])@ != (
            #[trigger] r@[b])@ by {
                assert(wit[a] < wit[b]);
                assert(self.state.status@[wit[a]].id@ != self.state.status@[wit[b]].id@);
            }
        }
        r
    }

    /// A copy of the record carrying this id.
    pub fn get_worker_metrics(&self, drone_id: &String) -> (r: Option<WorkerStatus>)
        ensures
            r is Some <==> has_worker(self.state.status@, drone_id@),
            r matches Some(st) ==> exists|t: int|
                0 <= t < self.state.status@.len() && (#[trigger] self.state.status@[t]).id@
                    == drone_id@ && same_status(st, self.state.status@[t].status),
    {
        match self.find_entry(drone_id) {
            None => None,
            Some(t) => {
                let e = &self.state.status[t].status;
                Some(
                    WorkerStatus {
                        cpu_usage: e.cpu_usage,
                        mem_usage: e.mem_usage,
                        net_latency: e.net_latency,
                        current_tasks: e.current_tasks,
                        max_tasks: e.max_tasks,
                        health_state: e.health_state,
                        last_heartbeat: e.last_heartbeat,
                        timeout_count: e.timeout_count,
                        registered_at: e.registered_at,
                        capability: clone_strings(&e.capability),
                    },
                )
            },
        }
    }

    /// Run the placement engine over the healthy workers and their
    /// instantaneous scores, and return the chosen worker's id. It
    /// succeeds exactly when some healthy worker scores at or below
    /// the selector's threshold, and the chosen worker is such a one —
    /// so a worker whose circuit breaker tripped is never chosen.
    pub fn place(&self, selector: &crate::balancer::ZergRushSelector) -> (r: Result<
        ProcessId,
        crate::balancer::SelectorError,
    >)
        requires
            self.wf(),
        ensures
            r matches Ok(id) ==> exists|t: int|
                healthy_at(self.state.status@, t) && (#[trigger] self.state.status@[t]).id@ == id@
                    && clamped_score(self.state.status@[t].status)
                    <= selector.max_load_threshold,
            r is Err ==> r == Err::<ProcessId, crate::balancer::SelectorError>(
                crate::balancer::SelectorError::NoNodesAvailable,
            ) && forall|t: int|
                healthy_at(self.state.status@, t) ==> clamped_score(
                    #[trigger] self.state.status@[t].status,
                ) > selector.max_load_threshold,
    {
        let n = self.state.status.len();
        let mut nodes: Vec<(Process, u32)> = Vec::new();
        let ghost mut wit: Seq<int> = Seq::empty();
        let ghost mut back: Seq<int> = Seq::empty();
        let mut t: usize = 0;
        while t < n
            invariant
                t <= n,
                self.wf(),
                n == self.state.status@.len(),
                wit.len() == nodes@.len(),
                back.len() == t,
                forall|q: int| #![trigger wit[q]]
                    0 <= q < nodes@.len() ==> healthy_at(self.state.status@, wit[q])
                        && nodes@[q].0.id@ == self.state.status@[wit[q]].id@ && nodes@[q].1
                        == clamped_score(self.state.status@[wit[q]].status),
                forall|u: int| #![trigger back[u]]
                    0 <= u < t && healthy_at(self.state.status@, u) ==> 0 <= back[u]
                        < nodes@.len() && wit[back[u]] == u,
            decreases n - t,
        {
            if self.state.status[t].status.health_state == HealthState::Healthy {
                let sc64 = self.score_at(t);
                let load: u32 = if sc64 > 1_000_000 {
                    1_000_000
                } else {
                    sc64 as u32
                };
                let id = self.state.status[t].id.clone();
                let caps = clone_strings(&self.state.status[t].status.capability);
                let maxt = self.state.status[t].status.max_tasks;
                let p = Process::new(id, caps, Some(maxt));
                let ghost pre = nodes@;
                let ghost wit0 = wit;
                let ghost back0 = back;
                nodes.push((p, load));
                proof {
                    wit = wit.push(t as int);
                    back = back.push(pre.len() as int);
                    assert(load == clamped_score(self.state.status@[t as int].status));
                    assert forall|q: int| #![trigger wit[q]]
                        0 <= q < nodes@.len() implies healthy_at(self.state.status@, wit[q])
                        && nodes@[q].0.id@ == self.state.status@[wit[q]].id@ && nodes@[q].1
                        == clamped_score(self.state.status@[wit[q]].status) by {
                        if q < pre.len() {
                            assert(nodes@[q] == pre[q]);
                            assert(wit[q] == wit0[q]);
                        } else {
                            assert(wit[q] == t as int);
                            assert(nodes@[q].0.id@ == self.state.status@[t as int].id@);
                        }
                    }
                    assert forall|u: int| #![trigger back[u]]
                        0 <= u < t + 1 && healthy_at(self.state.status@, u) implies 0 <= back[u]
                        < nodes@.len() && wit[back[u]] == u by {
                        if u < t {
                            assert(back[u] == back0[u]);
                            assert(wit[back0[u]] == wit0[back0[u]]);
                        } else {
                            assert(back[u] == pre.len() as int);
                            assert(wit[pre.len() as int] == t as int);
                        }
                    }
                }
            } else {
                proof {
                    back = back.push(-1);
                }
            }
            t = t + 1;
        }
        match selector.select(&nodes) {
            Err(e) => {
                proof {
                    assert forall|u: int|
                        healthy_at(self.state.status@, u) implies clamped_score(
                        #[trigger] self.state.status@[u].status,
                    ) > selector.max_load_threshold by {
                        let q = back[u];
                        assert(0 <= q < nodes@.len() && wit[q] == u);
                        assert(!crate::balancer::candidate_at(
                            nodes@,
                            selector.max_load_threshold,
                            q,
                        ));
                        assert(nodes@[q].1 == clamped_score(self.state.status@[u].status));
                    }
                }
                Err(e)
            },
            Ok(i) => {
                proof {
                    assert(crate::balancer::candidate_at(
                        nodes@,
                        selector.max_load_threshold,
                        i as int,
                    ));
                    assert(healthy_at(self.state.status@, wit[i as int]));
                    assert(clamped_score(self.state.status@[wit[i as int]].status)
                        <= selector.max_load_threshold);
                }
                let id = nodes[i].0.id.clone();
                Ok(id)
            },
        }
    }

    /// Dispatch an inbound message: registrations and heartbeats feed
    /// the registry, anything else is ignored. A registration carries
    /// no callback endpoint, so it always succeeds: a known id keeps
    /// its single entry and original registration timestamp with the
    /// metrics reset, a new id gains one entry and joins the active
    /// pool while it has room, the backup pool otherwise. The declared
    /// thread count is stored as the original wrote it to the wire,
    /// reinterpreted as unsigned.
    pub fn handle_message(&mut self, msg: ProcessMessage, now: u64) -> (r: Result<
        (),
        RegistrationError,
    >)
        requires
            old(self).wf(),
        ensures
            final(self).wf(),
            final(self).bind_addr@ == old(self).bind_addr@,
            msg matches ProcessMessage::Registration(reg) ==> ({
                &&& r == Ok::<(), RegistrationError>(())
                &&& (has_worker(old(self).state.status@, reg.worker_id@) ==> ({
                    &&& final(self).state.status@.len() == old(self).state.status@.len()
                    &&& final(self).state.workers@ == old(self).state.workers@
                    &&& final(self).state.backup_drones@ == old(self).state.backup_drones@
                    &&& forall|q: int|
                        0 <= q < old(self).state.status@.len() && (#[trigger] old(self).state.status@[q]).id@ != reg.worker_id@ ==> final(self).state.status@[q]
                            == old(self).state.status@[q]
                    &&& forall|q: int|
                        0 <= q < old(self).state.status@.len() && (#[trigger] old(self).state.status@[q]).id@ == reg.worker_id@ ==> final(self).state.status@[q].id@ == reg.worker_id@ && same_status(
                            final(self).state.status@[q].status,
                            fresh_status(
                                reg.capabilities,
                                Some(reg.max_threads as u32),
                                now,
                                old(self).state.status@[q].status.registered_at,
                            ),
                        )
                }))
                &&& (!has_worker(old(self).state.status@, reg.worker_id@) ==> ({
                    &&& final(self).state.status@.len() == old(self).state.status@.len() + 1
                    &&& forall|q: int|
                        0 <= q < old(self).state.status@.len() ==> final(self).state.status@[q]
                            == old(self).state.status@[q]
                    &&& final(self).state.status@.last().id@ == reg.worker_id@
                    &&& same_status(
                        final(self).state.status@.last().status,
                        fresh_status(reg.capabilities, Some(reg.max_threads as u32), now, now),
                    )
                    &&& old(self).state.workers@.len() < MAX_MAIN_POOL_SIZE ==> ({
                        &&& final(self).state.workers@.len() == old(self).state.workers@.len() + 1
                        &&& final(self).state.workers@.last().id@ == reg.worker_id@
                        &&& forall|q: int|
                            0 <= q < old(self).state.workers@.len() ==> final(self).state.workers@[q] == old(self).state.workers@[q]
                        &&& final(self).state.backup_drones@ == old(self).state.backup_drones@
                    })
                    &&& old(self).state.workers@.len() >= MAX_MAIN_POOL_SIZE ==> ({
                        &&& final(self).state.backup_drones@.len() == old(self).state.backup_drones@.len() + 1
                        &&& final(self).state.backup_drones@.last().id@ == reg.worker_id@
                        &&& forall|q: int|
                            0 <= q < old(self).state.backup_drones@.len() ==> final(self).state.backup_drones@[q] == old(self).state.backup_drones@[q]
                        &&& final(self).state.workers@ == old(self).state.workers@
                    })
                }))
            }),
            msg matches ProcessMessage::Heartbeat(hb) ==> r == Ok::<(), RegistrationError>(())
                && final(self).state.workers@ == old(self).state.workers@ && final(self).state.backup_drones@ == old(self).state.backup_drones@ && final(self).state.status@.len() == old(self).state.status@.len() && (forall|q: int|
                0 <= q < old(self).state.status@.len() && (#[trigger] old(self).state.status@[q]).id@ != hb.worker_id@ ==> final(self).state.status@[q] == old(self).state.status@[q]) && forall|q: int|
                0 <= q < old(self).state.status@.len() && (#[trigger] old(self).state.status@[q]).id@ == hb.worker_id@ ==> final(self).state.status@[q].id@
                    == hb.worker_id@ && same_status(
                    final(self).state.status@[q].status,
                    heartbeat_applied(
                        old(self).state.status@[q].status,
                        if hb.cpu_usage <= 1_000_000 {
                            hb.cpu_usage
                        } else {
                            1_000_000u32
                        },
                        if hb.mem_usage <= 1_000_000 {
                            hb.mem_usage
                        } else {
                            1_000_000u32
                        },
                        hb.net_latency,
                        hb.current_tasks,
                        now,
                    ),
                ),
            (msg matches ProcessMessage::Task(_) || msg matches ProcessMessage::TaskResponse(_))
                ==> r == Ok::<(), RegistrationError>(()) && final(self).state.status@ == old(self).state.status@ && final(self).state.workers@ == old(self).state.workers@ && final(self).state.backup_drones@ == old(self).state.backup_drones@,
    {
        match msg {
            ProcessMessage::Registration(reg) => {
                let max_threads: u32 = #[verifier::truncate] (reg.max_threads as u32);
                let drone = Process::new(reg.worker_id, reg.capabilities, Some(max_threads));
                match self.register_at(drone, now) {
                    Ok(()) => Ok(()),
                    Err(e) => Err(e),
                }
            },
            ProcessMessage::Heartbeat(hb) => {
                let cpu = if hb.cpu_usage <= 1_000_000 {
                    hb.cpu_usage
                } else {
                    1_000_000
                };
                let mem = if hb.mem_usage <= 1_000_000 {
                    hb.mem_usage
                } else {
                    1_000_000
                };
                self.update_worker_metrics(
                    &hb.worker_id,
                    cpu,
                    mem,
                    hb.net_latency,
                    hb.current_tasks,
                    now,
                );
                Ok(())
            },
            ProcessMessage::Task(_) => Ok(()),
            ProcessMessage::TaskResponse(_) => Ok(()),
        }
    }
}

} // verus!
