//! Per-worker tri-state health model driven by heartbeats and
//! heartbeat deadlines.
//!
//! `Healthy` and `Unhealthy` flow into each other; `CircuitBreaker` is
//! absorbing until the worker is registered anew.

use vstd::prelude::*;
use crate::proto::HealthState;

verus! {

/// A worker missing heartbeats for longer than this is counted as a
/// missed deadline, in milliseconds.
pub const T_MISS_MS: u64 = 9_000;

/// Consecutive missed deadlines that trip the circuit breaker.
pub const MAX_MISS: u32 = 3;

/// Nominal heartbeat interval, in milliseconds.
pub const HEARTBEAT_INTERVAL_MS: u64 = 3_000;

/// Utilisation above which a worker counts as overloaded, in parts per
/// million (90%).
pub const OVERLOAD_PPM: u32 = 900_000;

/// A worker is overloaded when CPU or memory exceed 90% or it runs at
/// its concurrency limit.
pub open spec fn overloaded(cpu: u32, mem: u32, current_tasks: u32, max_tasks: u32) -> bool {
    cpu > OVERLOAD_PPM || mem > OVERLOAD_PPM || current_tasks >= max_tasks
}

/// The state a heartbeat with the given telemetry leads to.
pub open spec fn heartbeat_transition(
    prev: HealthState,
    cpu: u32,
    mem: u32,
    current_tasks: u32,
    max_tasks: u32,
) -> HealthState {
    if prev == HealthState::CircuitBreaker {
        HealthState::CircuitBreaker
    } else if overloaded(cpu, mem, current_tasks, max_tasks) {
        HealthState::Unhealthy
    } else {
        HealthState::Healthy
    }
}

/// Apply a received heartbeat to a worker's health state.
pub fn health_on_heartbeat(
    prev: HealthState,
    cpu: u32,
    mem: u32,
    current_tasks: u32,
    max_tasks: u32,
) -> (r: HealthState)
    ensures
        r == heartbeat_transition(prev, cpu, mem, current_tasks, max_tasks),
{
    if prev == HealthState::CircuitBreaker {
        HealthState::CircuitBreaker
    } else if cpu > OVERLOAD_PPM || mem > OVERLOAD_PPM || current_tasks >= max_tasks {
        HealthState::Unhealthy
    } else {
        HealthState::Healthy
    }
}

/// The (state, missed count) a missed deadline leads to; the count
/// saturates instead of wrapping.
pub open spec fn deadline_transition(prev: HealthState, misses: u32) -> (HealthState, u32) {
    if prev == HealthState::CircuitBreaker {
        (HealthState::CircuitBreaker, misses)
    } else {
        let m = if misses < u32::MAX {
            (misses + 1) as u32
        } else {
            u32::MAX
        };
        if m >= MAX_MISS {
            (HealthState::CircuitBreaker, m)
        } else {
            (HealthState::Unhealthy, m)
        }
    }
}

/// Apply one missed heartbeat deadline to a worker's health state.
pub fn health_on_missed_deadline(prev: HealthState, misses: u32) -> (r: (HealthState, u32))
    ensures
        r == deadline_transition(prev, misses),
{
    if prev == HealthState::CircuitBreaker {
        (HealthState::CircuitBreaker, misses)
    } else {
        let m = if misses < u32::MAX {
            misses + 1
        } else {
            u32::MAX
        };
        if m >= MAX_MISS {
            (HealthState::CircuitBreaker, m)
        } else {
            (HealthState::Unhealthy, m)
        }
    }
}

/// A heartbeat deadline has passed when more than `T_MISS_MS` elapsed
/// since the last heartbeat.
pub open spec fn deadline_passed(last_heartbeat: u64, now: u64) -> bool {
    now > last_heartbeat && now - last_heartbeat > T_MISS_MS
}

} // verus!
