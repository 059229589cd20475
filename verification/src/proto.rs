//! Typed wire messages exchanged between the coordinator and its workers.
//!
//! Four message kinds travel as length-prefixed binary frames: worker
//! registration, periodic heartbeats, dispatched tasks and task responses.
//! Utilisation ratios travel as fixed-point integers in parts per million
//! (1_000_000 = 100%), so the whole layer stays free of floating point.

use vstd::prelude::*;

verus! {

/// Upper bound of a parts-per-million ratio (100%).
pub const PPM_SCALE: u32 = 1_000_000;

/// A task sent from the coordinator to a worker.
pub struct Task {
    /// Unique textual task id.
    pub id: String,
    /// Opaque task payload.
    pub payload: Vec<u8>,
    /// Submission timestamp, epoch seconds.
    pub timestamp: i64,
    /// String-to-string metadata entries, kept in insertion order.
    pub metadata: Vec<(String, String)>,
    /// Optional priority, 1..=10; the core does not reorder by it.
    pub priority: Option<u32>,
}

/// The outcome carried by a response: output bytes or an error message.
pub enum ResponseResult {
    Output(Vec<u8>),
    Error(String),
}

/// A worker's answer to a dispatched task.
pub struct Response {
    /// Id of the worker that produced the response.
    pub worker_id: String,
    /// Exactly one of output or error; `None` never travels on the wire.
    pub result: Option<ResponseResult>,
}

/// A worker's registration announcement.
pub struct Registration {
    pub worker_id: String,
    /// Maximum concurrent task count the worker declares.
    pub max_threads: i32,
    /// Worker software version.
    pub version: String,
    /// Capability tags.
    pub capabilities: Vec<String>,
}

/// Periodic worker telemetry.
pub struct Heartbeat {
    pub worker_id: String,
    /// Epoch seconds at the worker when the heartbeat was assembled.
    pub timestamp: i64,
    /// Health as the worker sees itself.
    pub state: HealthState,
    /// CPU utilisation in parts per million of full load.
    pub cpu_usage: u32,
    /// Memory utilisation in parts per million of full capacity.
    pub mem_usage: u32,
    /// Measured one-way latency in milliseconds.
    pub net_latency: u32,
    /// Tasks currently in flight on the worker.
    pub current_tasks: u32,
    /// Declared maximum concurrent task count.
    pub max_tasks: u32,
}

/// Response status codes reserved for acknowledgement frames.
#[derive(Clone, Copy, Debug, PartialEq, Eq, Structural, Hash)]
pub enum Status {
    Success,
    Failure,
    Processing,
    Timeout,
}

impl Status {
    /// Stable wire-level name of the variant.
    pub fn as_str_name(&self) -> (r: &'static str)
        ensures
            *self == Status::Success ==> r@ == "SUCCESS"@,
            *self == Status::Failure ==> r@ == "FAILURE"@,
            *self == Status::Processing ==> r@ == "PROCESSING"@,
            *self == Status::Timeout ==> r@ == "TIMEOUT"@,
    {
        match self {
            Status::Success => "SUCCESS",
            Status::Failure => "FAILURE",
            Status::Processing => "PROCESSING",
            Status::Timeout => "TIMEOUT",
        }
    }

    /// Parse a stable wire-level name back into a variant.
    pub fn from_str_name(value: &str) -> (r: Option<Status>)
        ensures
            r == (if value@ == "SUCCESS"@ {
                Some(Status::Success)
            } else if value@ == "FAILURE"@ {
                Some(Status::Failure)
            } else if value@ == "PROCESSING"@ {
                Some(Status::Processing)
            } else if value@ == "TIMEOUT"@ {
                Some(Status::Timeout)
            } else {
                None::<Status>
            }),
    {
        let v = value.to_owned();
        if v == "SUCCESS".to_owned() {
            Some(Status::Success)
        } else if v == "FAILURE".to_owned() {
            Some(Status::Failure)
        } else if v == "PROCESSING".to_owned() {
            Some(Status::Processing)
        } else if v == "TIMEOUT".to_owned() {
            Some(Status::Timeout)
        } else {
            None
        }
    }
}

/// Tri-state worker health model.
///
/// `CircuitBreaker` is absorbing within one registration lifetime.
#[derive(Clone, Copy, Debug, PartialEq, Eq, Structural, Hash)]
pub enum HealthState {
    Healthy,
    Unhealthy,
    CircuitBreaker,
}

impl HealthState {
    /// Stable wire-level name of the variant.
    pub fn as_str_name(&self) -> (r: &'static str)
        ensures
            *self == HealthState::Healthy ==> r@ == "HEALTHY"@,
            *self == HealthState::Unhealthy ==> r@ == "UNHEALTHY"@,
            *self == HealthState::CircuitBreaker ==> r@ == "CIRCUIT_BREAKER"@,
    {
        match self {
            HealthState::Healthy => "HEALTHY",
            HealthState::Unhealthy => "UNHEALTHY",
            HealthState::CircuitBreaker => "CIRCUIT_BREAKER",
        }
    }

    /// Parse a stable wire-level name back into a variant.
    pub fn from_str_name(value: &str) -> (r: Option<HealthState>)
        ensures
            r == (if value@ == "HEALTHY"@ {
                Some(HealthState::Healthy)
            } else if value@ == "UNHEALTHY"@ {
                Some(HealthState::Unhealthy)
            } else if value@ == "CIRCUIT_BREAKER"@ {
                Some(HealthState::CircuitBreaker)
            } else {
                None::<HealthState>
            }),
    {
        let v = value.to_owned();
        if v == "HEALTHY".to_owned() {
            Some(HealthState::Healthy)
        } else if v == "UNHEALTHY".to_owned() {
            Some(HealthState::Unhealthy)
        } else if v == "CIRCUIT_BREAKER".to_owned() {
            Some(HealthState::CircuitBreaker)
        } else {
            None
        }
    }
}

/// Numeric wire value of a health state.
pub open spec fn health_code(h: HealthState) -> u32 {
    match h {
        HealthState::Healthy => 0u32,
        HealthState::Unhealthy => 1u32,
        HealthState::CircuitBreaker => 2u32,
    }
}

/// Encode a health state as its numeric wire value.
pub fn health_to_code(h: HealthState) -> (r: u32)
    ensures
        r == health_code(h),
{
    match h {
        HealthState::Healthy => 0,
        HealthState::Unhealthy => 1,
        HealthState::CircuitBreaker => 2,
    }
}

/// Decode a numeric wire value into a health state.
pub fn health_from_code(c: u32) -> (r: Option<HealthState>)
    ensures
        r matches Some(h) ==> health_code(h) == c,
        r is Some <==> c <= 2,
        forall|h: HealthState| health_code(h) == c ==> r == Some(h),
{
    if c == 0 {
        Some(HealthState::Healthy)
    } else if c == 1 {
        Some(HealthState::Unhealthy)
    } else if c == 2 {
        Some(HealthState::CircuitBreaker)
    } else {
        None
    }
}

/// Mathematical value of a task message.
#[verifier::ext_equal]
pub ghost struct TaskV {
    pub id: Seq<char>,
    pub payload: Seq<u8>,
    pub timestamp: i64,
    pub metadata: Seq<(Seq<char>, Seq<char>)>,
    pub priority: Option<u32>,
}

/// Mathematical value of a response message.
#[verifier::ext_equal]
pub ghost struct ResponseV {
    pub worker_id: Seq<char>,
    pub result: Option<ResponseResultV>,
}

/// Mathematical value of a response outcome.
#[verifier::ext_equal]
pub ghost enum ResponseResultV {
    Output(Seq<u8>),
    Error(Seq<char>),
}

/// Mathematical value of a registration message.
#[verifier::ext_equal]
pub ghost struct RegistrationV {
    pub worker_id: Seq<char>,
    pub max_threads: i32,
    pub version: Seq<char>,
    pub capabilities: Seq<Seq<char>>,
}

/// Mathematical value of a heartbeat message.
#[verifier::ext_equal]
pub ghost struct HeartbeatV {
    pub worker_id: Seq<char>,
    pub timestamp: i64,
    pub state: HealthState,
    pub cpu_usage: u32,
    pub mem_usage: u32,
    pub net_latency: u32,
    pub current_tasks: u32,
    pub max_tasks: u32,
}

impl View for Task {
    type V = TaskV;

    open spec fn view(&self) -> TaskV {
        TaskV {
            id: self.id@,
            payload: self.payload@,
            timestamp: self.timestamp,
            metadata: self.metadata.deep_view(),
            priority: self.priority,
        }
    }
}

impl View for ResponseResult {
    type V = ResponseResultV;

    open spec fn view(&self) -> ResponseResultV {
        match self {
            ResponseResult::Output(b) => ResponseResultV::Output(b@),
            ResponseResult::Error(s) => ResponseResultV::Error(s@),
        }
    }
}

impl View for Response {
    type V = ResponseV;

    open spec fn view(&self) -> ResponseV {
        ResponseV {
            worker_id: self.worker_id@,
            result: match self.result {
                Some(r) => Some(r@),
                None => None,
            },
        }
    }
}

impl View for Registration {
    type V = RegistrationV;

    open spec fn view(&self) -> RegistrationV {
        RegistrationV {
            worker_id: self.worker_id@,
            max_threads: self.max_threads,
            version: self.version@,
            capabilities: self.capabilities.deep_view(),
        }
    }
}

impl View for Heartbeat {
    type V = HeartbeatV;

    open spec fn view(&self) -> HeartbeatV {
        HeartbeatV {
            worker_id: self.worker_id@,
            timestamp: self.timestamp,
            state: self.state,
            cpu_usage: self.cpu_usage,
            mem_usage: self.mem_usage,
            net_latency: self.net_latency,
            current_tasks: self.current_tasks,
            max_tasks: self.max_tasks,
        }
    }
}

} // verus!
