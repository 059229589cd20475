//! Task-engine core: the bounded ingress queue, dispatch accounting
//! and aggregate counters, as one state machine. The cooperative
//! scheduler that suspends on the queue and performs the sends drives
//! this state from outside.

use vstd::prelude::*;
use crate::proto::Task;
use crate::ProcessId;

verus! {

/// Default ingress queue capacity.
pub const QUEUE_CAPACITY: usize = 1024;

/// Queue-to-dispatch latency above which a dispatch counts as slow,
/// milliseconds.
pub const DISPATCH_WARN_MS: u64 = 50;

/// Why a submission was refused.
#[derive(Debug, PartialEq, Eq, Structural)]
pub enum SubmitError {
    /// The queue is full and the engine fails fast.
    PoolFull,
    /// The queue is full and the engine is in back-pressure mode: the
    /// caller suspends and resubmits.
    Backpressure,
    /// The engine no longer accepts tasks.
    Shutdown,
}

/// One dispatched task awaiting its response.
pub struct OutstandingEntry {
    pub task_id: ProcessId,
    pub worker_id: ProcessId,
    /// When the task went to the wire, epoch ms.
    pub dispatch_ts: u64,
}

/// The task engine's state.
pub struct TaskEngine {
    /// Ingress queue bound.
    pub capacity: usize,
    /// Whether a full queue back-pressures instead of failing fast.
    pub backpressure: bool,
    /// Submitted tasks awaiting dispatch, oldest first.
    pub pending: Vec<Task>,
    /// False once shutdown began.
    pub accepting: bool,
    /// Completed task count; saturates.
    pub total_tasks: u64,
    /// Summed task duration in milliseconds; saturates.
    pub total_duration_ms: u64,
    /// Dispatched tasks awaiting their responses.
    pub outstanding: Vec<OutstandingEntry>,
}

impl TaskEngine {
    /// The queue never exceeds its bound.
    pub open spec fn wf(self) -> bool {
        self.pending@.len() <= self.capacity
    }

    /// A fresh engine accepting submissions.
    pub fn new(capacity: usize, backpressure: bool) -> (r: TaskEngine)
        ensures
            r.wf(),
            r.capacity == capacity,
            r.backpressure == backpressure,
            r.pending@.len() == 0,
            r.accepting,
            r.total_tasks == 0,
            r.total_duration_ms == 0,
            r.outstanding@.len() == 0,
    {
        TaskEngine {
            capacity,
            backpressure,
            pending: Vec::new(),
            accepting: true,
            total_tasks: 0,
            total_duration_ms: 0,
            outstanding: Vec::new(),
        }
    }

    /// Submit a task. A full queue back-pressures or fails fast by
    /// configuration, and a shut-down engine refuses; in every failure
    /// the queue is untouched, so no task is ever silently dropped.
    pub fn submit(&mut self, t: Task) -> (r: Result<(), SubmitError>)
        requires
            old(self).wf(),
        ensures
            final(self).wf(),
            final(self).capacity == old(self).capacity,
            final(self).backpressure == old(self).backpressure,
            final(self).accepting == old(self).accepting,
            final(self).total_tasks == old(self).total_tasks,
            final(self).total_duration_ms == old(self).total_duration_ms,
            final(self).outstanding@ == old(self).outstanding@,
            !old(self).accepting ==> r == Err::<(), SubmitError>(SubmitError::Shutdown) && final(self).pending@ == old(self).pending@,
            old(self).accepting && old(self).pending@.len() >= old(self).capacity && old(self).backpressure ==> r == Err::<(), SubmitError>(SubmitError::Backpressure) && final(self).pending@ == old(self).pending@,
            old(self).accepting && old(self).pending@.len() >= old(self).capacity && !old(self).backpressure ==> r == Err::<(), SubmitError>(SubmitError::PoolFull) && final(self).pending@ == old(self).pending@,
            old(self).accepting && old(self).pending@.len() < old(self).capacity ==> r == Ok::<
                (),
                SubmitError,
            >(()) && final(self).pending@ == old(self).pending@.push(t),
    {
        if !self.accepting {
            return Err(SubmitError::Shutdown);
        }
        if self.pending.len() >= self.capacity {
            if self.backpressure {
                return Err(SubmitError::Backpressure);
            }
            return Err(SubmitError::PoolFull);
        }
        self.pending.push(t);
        Ok(())
    }

    /// Pull the oldest pending task for dispatch; FIFO per engine.
    pub fn take_next(&mut self) -> (r: Option<Task>)
        requires
            old(self).wf(),
        ensures
            final(self).wf(),
            final(self).capacity == old(self).capacity,
            final(self).backpressure == old(self).backpressure,
            final(self).accepting == old(self).accepting,
            final(self).total_tasks == old(self).total_tasks,
            final(self).total_duration_ms == old(self).total_duration_ms,
            final(self).outstanding@ == old(self).outstanding@,
            old(self).pending@.len() == 0 ==> r is None && final(self).pending@ == old(self).pending@,
            old(self).pending@.len() > 0 ==> (r matches Some(t) && t == old(self).pending@[0]
                && final(self).pending@ == old(self).pending@.subrange(
                1,
                old(self).pending@.len() as int,
            )),
    {
        if self.pending.len() == 0 {
            return None;
        }
        let t = self.pending.remove(0);
        proof {
            assert(self.pending@ =~= old(self).pending@.subrange(
                1,
                old(self).pending@.len() as int,
            ));
        }
        Some(t)
    }

    /// Record a dispatch in the outstanding table; reports whether the
    /// queue-to-wire latency crossed the warning threshold.
    pub fn record_dispatch(
        &mut self,
        task_id: ProcessId,
        worker_id: ProcessId,
        submit_ts: u64,
        now: u64,
    ) -> (slow: bool)
        requires
            old(self).wf(),
        ensures
            final(self).wf(),
            final(self).pending@ == old(self).pending@,
            final(self).accepting == old(self).accepting,
            final(self).total_tasks == old(self).total_tasks,
            final(self).total_duration_ms == old(self).total_duration_ms,
            final(self).capacity == old(self).capacity,
            final(self).backpressure == old(self).backpressure,
            final(self).outstanding@.len() == old(self).outstanding@.len() + 1,
            forall|q: int|
                0 <= q < old(self).outstanding@.len() ==> final(self).outstanding@[q] == old(self).outstanding@[q],
            final(self).outstanding@.last().task_id@ == task_id@,
            final(self).outstanding@.last().worker_id@ == worker_id@,
            final(self).outstanding@.last().dispatch_ts == now,
            slow == (now > submit_ts && now - submit_ts > DISPATCH_WARN_MS),
    {
        self.outstanding.push(OutstandingEntry { task_id, worker_id, dispatch_ts: now });
        now > submit_ts && now - submit_ts > DISPATCH_WARN_MS
    }

    /// Resolve an outstanding task: drop its entry, bump the counters,
    /// and return the dispatch-to-completion time. Unknown ids change
    /// nothing.
    pub fn complete(&mut self, task_id: &String, now: u64) -> (r: Option<u64>)
        requires
            old(self).wf(),
        ensures
            final(self).pending@.len() <= final(self).capacity,
            final(self).pending@ == old(self).pending@,
            final(self).accepting == old(self).accepting,
            final(self).capacity == old(self).capacity,
            final(self).backpressure == old(self).backpressure,
            r is Some <==> exists|t: int|
                0 <= t < old(self).outstanding@.len() && (#[trigger] old(self).outstanding@[t]).task_id@ == task_id@,
            r is None ==> final(self).outstanding@ == old(self).outstanding@ && final(self).total_tasks == old(self).total_tasks && final(self).total_duration_ms == old(self).total_duration_ms,
            r matches Some(elapsed) ==> exists|t: int|
                0 <= t < old(self).outstanding@.len() && (#[trigger] old(self).outstanding@[t]).task_id@ == task_id@ && elapsed == (
                if now > old(self).outstanding@[t].dispatch_ts {
                    (now - old(self).outstanding@[t].dispatch_ts) as u64
                } else {
                    0u64
                }) && final(self).outstanding@ == old(self).outstanding@.remove(t) && final(self).total_tasks == (if old(self).total_tasks < u64::MAX {
                    (old(self).total_tasks + 1) as u64
                } else {
                    u64::MAX
                }) && final(self).total_duration_ms == (
                if old(self).total_duration_ms + elapsed <= u64::MAX {
                    (old(self).total_duration_ms + elapsed) as u64
                } else {
                    u64::MAX
                }),
    {
        let n = self.outstanding.len();
        let mut t: usize = 0;
        while t < n
            invariant
                t <= n,
                old(self).pending@.len() <= old(self).capacity,
                *self == *old(self),
                n == self.outstanding@.len(),
                forall|q: int| 0 <= q < t ==> (#[trigger] self.outstanding@[q]).task_id@ != task_id@,
            decreases n - t,
        {
            if self.outstanding[t].task_id == *task_id {
                let ts = self.outstanding[t].dispatch_ts;
                let elapsed: u64 = if now > ts {
                    now - ts
                } else {
                    0
                };
                let _ = self.outstanding.remove(t);
                if self.total_tasks < u64::MAX {
                    self.total_tasks = self.total_tasks + 1;
                }
                if self.total_duration_ms <= u64::MAX - elapsed {
                    self.total_duration_ms = self.total_duration_ms + elapsed;
                } else {
                    self.total_duration_ms = u64::MAX;
                }
                return Some(elapsed);
            }
            t = t + 1;
        }
        None
    }

    /// Stop accepting new tasks; already queued and outstanding tasks
    /// stay intact for the draining caller.
    pub fn shutdown(&mut self)
        requires
            old(self).wf(),
        ensures
            final(self).wf(),
            !final(self).accepting,
            final(self).pending@ == old(self).pending@,
            final(self).outstanding@ == old(self).outstanding@,
            final(self).total_tasks == old(self).total_tasks,
            final(self).total_duration_ms == old(self).total_duration_ms,
            final(self).capacity == old(self).capacity,
            final(self).backpressure == old(self).backpressure,
    {
        self.accepting = false;
    }
}

} // verus!
