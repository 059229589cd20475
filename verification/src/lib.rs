//! Core of a distributed worker-pool coordinator and its worker agents.
//!
//! A central coordinator keeps a registry of remote workers, routes tasks
//! to them with a load-balanced placement algorithm, and tracks per-worker
//! health from periodic heartbeats. This crate holds the verified core:
//! the wire codec, the worker registry and health state machine, the
//! weight calculator, the placement engine with elastic scaling, and the
//! task-engine state machine. Network transport and schedulers live in
//! unverified glue around the library.

use vstd::prelude::*;

pub mod balancer;
pub mod codec;
pub mod drone;
pub mod ema;
pub mod engine;
pub mod health;
pub mod host;
pub mod proto;
pub mod queen;

verus! {

/// Messages delivered by the routing layer, dispatched on their kind.
pub enum ProcessMessage {
    Registration(proto::Registration),
    Heartbeat(proto::Heartbeat),
    Task(proto::Task),
    TaskResponse(proto::Response),
}

/// Mathematical value of a routed message.
#[verifier::ext_equal]
pub ghost enum ProcessMessageV {
    Registration(proto::RegistrationV),
    Heartbeat(proto::HeartbeatV),
    Task(proto::TaskV),
    TaskResponse(proto::ResponseV),
}

impl View for ProcessMessage {
    type V = ProcessMessageV;

    open spec fn view(&self) -> ProcessMessageV {
        match self {
            ProcessMessage::Registration(v) => ProcessMessageV::Registration(v@),
            ProcessMessage::Heartbeat(v) => ProcessMessageV::Heartbeat(v@),
            ProcessMessage::Task(v) => ProcessMessageV::Task(v@),
            ProcessMessage::TaskResponse(v) => ProcessMessageV::TaskResponse(v@),
        }
    }
}

/// Identifier for a worker process.
pub type ProcessId = String;

/// Maximum number of workers admitted to the active pool.
pub const MAX_MAIN_POOL_SIZE: usize = 10;

/// A worker process as known to the coordinator.
pub struct Process {
    pub id: ProcessId,
    pub endpoint: String,
    pub capability: Vec<String>,
    pub max_tasks: Option<u32>,
    /// Effective placement weight in parts per million; 1_000_000 = full.
    pub weight: u32,
    /// Last composite load score in parts per million.
    pub current_load: u32,
}

impl Process {
    /// Create a worker record with full weight and no load.
    pub fn new(id: ProcessId, capability: Vec<String>, max_tasks: Option<u32>) -> (r: Process)
        ensures
            r.id == id,
            r.capability == capability,
            r.max_tasks == max_tasks,
            r.weight == 1_000_000u32,
            r.current_load == 0u32,
            r.endpoint@ == Seq::<char>::empty(),
    {
        Process {
            id,
            endpoint: String::new(),
            capability,
            max_tasks,
            weight: 1_000_000,
            current_load: 0,
        }
    }
}

/// Why a registration was refused.
#[derive(Debug, PartialEq, Eq, Structural)]
pub enum RegistrationError {
    InvalidEndpoint,
    PoolFull,
}

/// Errors surfaced by the coordinator-side pool.
#[derive(Debug)]
pub enum PoolError {
    Network,
    Registration(String),
    InvalidWorkerId,
    InsufficientCapacity,
    InternalError,
}

} // verus!
