//! Worker-agent core: the heartbeat state machine, the worker's
//! identity cell, and the local task queue. Sockets, timers and the
//! system sampler drive these from outside.

use vstd::prelude::*;
use crate::health;
use crate::proto::{Heartbeat, HealthState, Response, Task};
use crate::{PoolError, ProcessId};

verus! {

/// Local ingress queue bound on the worker.
pub const DRONE_QUEUE_CAPACITY: usize = 1000;

/// Why the heartbeat loop stopped.
#[derive(Debug, PartialEq, Eq, Structural)]
pub enum HeartbeatError {
    /// The acknowledgement deadline was missed too often.
    Timeout,
    /// The worker tripped its own circuit breaker.
    CircuitBreaker,
    /// The transport could not carry the heartbeat.
    Network,
}

/// The worker's own heartbeat bookkeeping.
pub struct HeartbeatManager {
    pub worker_id: ProcessId,
    /// When the last acknowledgement arrived, epoch ms.
    pub last_recv_time: u64,
    /// When the last heartbeat went out, epoch ms.
    pub last_send_time: u64,
    /// Consecutive missed acknowledgement deadlines.
    pub timeout_count: u32,
    /// The worker's view of its own health.
    pub health_state: HealthState,
    /// Tasks currently running locally.
    pub current_tasks: u32,
    /// Declared concurrency limit.
    pub max_tasks: u32,
    /// Last measured round trip, milliseconds.
    pub last_latency: u32,
}

impl HeartbeatManager {
    /// A fresh manager, healthy, with both clocks started at `now`.
    pub fn new(worker_id: ProcessId, max_tasks: u32, now: u64) -> (r: HeartbeatManager)
        ensures
            r.worker_id@ == worker_id@,
            r.last_recv_time == now,
            r.last_send_time == now,
            r.timeout_count == 0,
            r.health_state == HealthState::Healthy,
            r.current_tasks == 0,
            r.max_tasks == max_tasks,
            r.last_latency == 10u32,
    {
        HeartbeatManager {
            worker_id,
            last_recv_time: now,
            last_send_time: now,
            timeout_count: 0,
            health_state: HealthState::Healthy,
            current_tasks: 0,
            max_tasks,
            last_latency: 10,
        }
    }

    /// Assemble the heartbeat message for one tick from sampled
    /// telemetry.
    pub fn build_heartbeat(&self, now_epoch_secs: i64, cpu_ppm: u32, mem_ppm: u32) -> (r: Heartbeat)
        requires
            cpu_ppm <= 1_000_000,
            mem_ppm <= 1_000_000,
        ensures
            r.worker_id@ == self.worker_id@,
            r.timestamp == now_epoch_secs,
            r.state == self.health_state,
            r.cpu_usage == cpu_ppm,
            r.mem_usage == mem_ppm,
            r.net_latency == self.last_latency,
            r.current_tasks == self.current_tasks,
            r.max_tasks == self.max_tasks,
    {
        Heartbeat {
            worker_id: self.worker_id.clone(),
            timestamp: now_epoch_secs,
            state: self.health_state,
            cpu_usage: cpu_ppm,
            mem_usage: mem_ppm,
            net_latency: self.last_latency,
            current_tasks: self.current_tasks,
            max_tasks: self.max_tasks,
        }
    }

    /// Note that a heartbeat went out now.
    pub fn record_send(&mut self, now: u64)
        ensures
            final(self).last_send_time == now,
            final(self).last_recv_time == old(self).last_recv_time,
            final(self).timeout_count == old(self).timeout_count,
            final(self).health_state == old(self).health_state,
            final(self).worker_id@ == old(self).worker_id@,
            final(self).current_tasks == old(self).current_tasks,
            final(self).max_tasks == old(self).max_tasks,
            final(self).last_latency == old(self).last_latency,
    {
        self.last_send_time = now;
    }

    /// An acknowledgement arrived: measure the round trip and restart
    /// the receive clock.
    pub fn handle_response(&mut self, now: u64)
        ensures
            final(self).last_recv_time == now,
            final(self).last_latency == (if now > old(self).last_send_time && now - old(self).last_send_time <= u32::MAX {
                (now - old(self).last_send_time) as u32
            } else if now > old(self).last_send_time {
                u32::MAX
            } else {
                0u32
            }),
            final(self).last_send_time == old(self).last_send_time,
            final(self).timeout_count == old(self).timeout_count,
            final(self).health_state == old(self).health_state,
            final(self).worker_id@ == old(self).worker_id@,
            final(self).current_tasks == old(self).current_tasks,
            final(self).max_tasks == old(self).max_tasks,
    {
        let rtt: u32 = if now > self.last_send_time {
            let d = now - self.last_send_time;
            if d <= u32::MAX as u64 {
                d as u32
            } else {
                u32::MAX
            }
        } else {
            0
        };
        self.last_latency = rtt;
        self.last_recv_time = now;
    }

    /// One deadline check: past the miss deadline the miss counter
    /// grows and health degrades, tripping the circuit breaker — and
    /// ending the heartbeat loop — at the third consecutive miss. A
    /// tripped breaker stays tripped.
    pub fn check_timeout(&mut self, now: u64) -> (tripped: bool)
        ensures
            final(self).last_recv_time == old(self).last_recv_time,
            final(self).last_send_time == old(self).last_send_time,
            final(self).worker_id@ == old(self).worker_id@,
            final(self).current_tasks == old(self).current_tasks,
            final(self).max_tasks == old(self).max_tasks,
            final(self).last_latency == old(self).last_latency,
            old(self).health_state == HealthState::CircuitBreaker ==> final(self).health_state
                == HealthState::CircuitBreaker && tripped,
            old(self).health_state != HealthState::CircuitBreaker && health::deadline_passed(
                old(self).last_recv_time,
                now,
            ) ==> (final(self).health_state, final(self).timeout_count) == health::deadline_transition(
                old(self).health_state,
                old(self).timeout_count,
            ) && tripped == (final(self).health_state == HealthState::CircuitBreaker),
            old(self).health_state != HealthState::CircuitBreaker && !health::deadline_passed(
                old(self).last_recv_time,
                now,
            ) ==> final(self).health_state == HealthState::Healthy && final(self).timeout_count
                == 0 && !tripped,
    {
        if self.health_state == HealthState::CircuitBreaker {
            return true;
        }
        if now > self.last_recv_time && now - self.last_recv_time > health::T_MISS_MS {
            let (next, m) = health::health_on_missed_deadline(self.health_state, self.timeout_count);
            self.health_state = next;
            self.timeout_count = m;
            self.health_state == HealthState::CircuitBreaker
        } else {
            self.timeout_count = 0;
            self.health_state = HealthState::Healthy;
            false
        }
    }

    /// Update the locally running task count.
    pub fn update_task_count(&mut self, current: u32)
        ensures
            final(self).current_tasks == current,
            final(self).health_state == old(self).health_state,
            final(self).timeout_count == old(self).timeout_count,
            final(self).worker_id@ == old(self).worker_id@,
            final(self).max_tasks == old(self).max_tasks,
            final(self).last_recv_time == old(self).last_recv_time,
            final(self).last_send_time == old(self).last_send_time,
            final(self).last_latency == old(self).last_latency,
    {
        self.current_tasks = current;
    }
}

/// The worker-id cell, set once at connect time.
pub struct DroneIdentity {
    pub id: Option<ProcessId>,
}

impl DroneIdentity {
    /// An unset cell.
    pub fn new() -> (r: DroneIdentity)
        ensures
            r.id is None,
    {
        DroneIdentity { id: None }
    }

    /// Set the id once; a second set changes nothing and reports
    /// failure.
    pub fn set_worker_id(&mut self, id: ProcessId) -> (r: bool)
        ensures
            old(self).id is None ==> r && final(self).id == Some(id),
            old(self).id is Some ==> !r && final(self).id == old(self).id,
    {
        match &self.id {
            None => {
                self.id = Some(id);
                true
            },
            Some(_) => false,
        }
    }
}

/// The worker id held by the identity cell, if set.
pub fn get_worker_id(identity: &DroneIdentity) -> (r: Option<ProcessId>)
    ensures
        r == identity.id,
{
    match &identity.id {
        None => None,
        Some(s) => Some(s.clone()),
    }
}

/// The worker-local task queue with its response channel, as state;
/// the thread pool that executes the tasks drives it from outside.
pub struct TaskQueue {
    /// Tasks accepted and not yet taken by a worker thread.
    pub pending: Vec<Task>,
    /// Responses produced and not yet delivered.
    pub responses: Vec<Response>,
    /// Queue bound.
    pub capacity: usize,
}

impl TaskQueue {
    /// The queue never exceeds its bound.
    pub open spec fn wf(self) -> bool {
        self.pending@.len() <= self.capacity
    }

    /// A fresh queue at the default bound.
    pub fn new() -> (r: TaskQueue)
        ensures
            r.wf(),
            r.pending@.len() == 0,
            r.responses@.len() == 0,
            r.capacity == DRONE_QUEUE_CAPACITY,
    {
        TaskQueue { pending: Vec::new(), responses: Vec::new(), capacity: DRONE_QUEUE_CAPACITY }
    }

    /// Accept a task. A full queue refuses and the task is never
    /// silently dropped.
    pub fn submit(&mut self, t: Task) -> (r: Result<(), PoolError>)
        requires
            old(self).wf(),
        ensures
            final(self).wf(),
            final(self).capacity == old(self).capacity,
            final(self).responses@ == old(self).responses@,
            old(self).pending@.len() >= old(self).capacity ==> r is Err && final(self).pending@
                == old(self).pending@,
            old(self).pending@.len() < old(self).capacity ==> r is Ok && final(self).pending@
                == old(self).pending@.push(t),
    {
        if self.pending.len() >= self.capacity {
            return Err(PoolError::InsufficientCapacity);
        }
        self.pending.push(t);
        Ok(())
    }

    /// Pull the oldest accepted task, if any.
    pub fn take_next(&mut self) -> (r: Option<Task>)
        requires
            old(self).wf(),
        ensures
            final(self).wf(),
            final(self).capacity == old(self).capacity,
            final(self).responses@ == old(self).responses@,
            old(self).pending@.len() == 0 ==> r is None && final(self).pending@ == old(self).pending@,
            old(self).pending@.len() > 0 ==> (r matches Some(t) && t == old(self).pending@[0]
                && final(self).pending@ == old(self).pending@.subrange(
                1,
                old(self).pending@.len() as int,
            )),
    {
        if self.pending.len() == 0 {
            return None;
        }
        let t = self.pending.remove(0);
        proof {
            assert(self.pending@ =~= old(self).pending@.subrange(
                1,
                old(self).pending@.len() as int,
            ));
        }
        Some(t)
    }

    /// Record a produced response.
    pub fn push_response(&mut self, resp: Response)
        ensures
            final(self).responses@ == old(self).responses@.push(resp),
            final(self).pending@ == old(self).pending@,
            final(self).capacity == old(self).capacity,
    {
        self.responses.push(resp);
    }

    /// Queue usage: pending length and bound, response length and
    /// bound.
    pub fn queue_usage(&self) -> (r: (usize, usize, usize, usize))
        ensures
            r.0 == self.pending@.len(),
            r.1 == self.capacity,
            r.2 == self.responses@.len(),
            r.3 == self.capacity,
    {
        (self.pending.len(), self.capacity, self.responses.len(), self.capacity)
    }

    /// Relies on `uuid`'s `new_v4` and its hyphenated display form: a
    /// fresh 36-character task id. The value is random, so nothing
    /// more is promised of it.
    #[verifier::external_body]
    pub fn generate_task_id() -> (r: String)
        ensures
            r@.len() == 36,
    {
        uuid::Uuid::new_v4().to_string()
    }
}

} // verus!
