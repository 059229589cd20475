use zerg_pool::drone::{get_worker_id, DroneIdentity, HeartbeatManager, TaskQueue};
use zerg_pool::proto::{HealthState, Response, ResponseResult, Task};

fn task(id: &str) -> Task {
    Task {
        id: id.to_string(),
        payload: Vec::new(),
        timestamp: 0,
        metadata: Vec::new(),
        priority: None,
    }
}

#[test]
fn test_heartbeat_manager_round_trip_latency() {
    let mut hb = HeartbeatManager::new("w1".to_string(), 8, 1_000);
    hb.record_send(2_000);
    hb.handle_response(2_040);
    assert_eq!(hb.last_latency, 40);
    assert_eq!(hb.last_recv_time, 2_040);
}

#[test]
fn test_heartbeat_manager_trips_after_three_misses() {
    let mut hb = HeartbeatManager::new("w1".to_string(), 8, 0);
    assert!(!hb.check_timeout(10_000));
    assert_eq!(hb.health_state, HealthState::Unhealthy);
    assert!(!hb.check_timeout(20_000));
    assert!(hb.check_timeout(30_000));
    assert_eq!(hb.health_state, HealthState::CircuitBreaker);
    // The breaker is absorbing, even once acknowledgements resume.
    assert!(hb.check_timeout(30_001));
}

#[test]
fn test_heartbeat_manager_recovers_before_breaker() {
    let mut hb = HeartbeatManager::new("w1".to_string(), 8, 0);
    assert!(!hb.check_timeout(10_000));
    assert_eq!(hb.timeout_count, 1);
    // An acknowledgement inside the deadline clears the miss counter.
    hb.handle_response(12_000);
    assert!(!hb.check_timeout(13_000));
    assert_eq!(hb.timeout_count, 0);
    assert_eq!(hb.health_state, HealthState::Healthy);
}

#[test]
fn test_build_heartbeat_carries_state() {
    let mut hb = HeartbeatManager::new("w1".to_string(), 8, 0);
    hb.update_task_count(3);
    let msg = hb.build_heartbeat(1_700_000_000, 250_000, 125_000);
    assert_eq!(msg.worker_id, "w1");
    assert_eq!(msg.timestamp, 1_700_000_000);
    assert_eq!(msg.state, HealthState::Healthy);
    assert_eq!(msg.cpu_usage, 250_000);
    assert_eq!(msg.mem_usage, 125_000);
    assert_eq!(msg.net_latency, 10);
    assert_eq!(msg.current_tasks, 3);
    assert_eq!(msg.max_tasks, 8);
}

#[test]
fn test_identity_cell_sets_once() {
    let mut identity = DroneIdentity::new();
    assert_eq!(get_worker_id(&identity), None);
    assert!(identity.set_worker_id("w1".to_string()));
    assert_eq!(get_worker_id(&identity), Some("w1".to_string()));
    assert!(!identity.set_worker_id("w2".to_string()));
    assert_eq!(get_worker_id(&identity), Some("w1".to_string()));
}

#[test]
fn test_task_queue_bounds_and_order() {
    let mut q = TaskQueue::new();
    let (used, cap, resp, _) = q.queue_usage();
    assert_eq!((used, resp), (0, 0));

    for i in 0..cap {
        assert!(q.submit(task(&format!("t{}", i))).is_ok());
    }
    assert!(q.submit(task("overflow")).is_err());
    assert_eq!(q.queue_usage().0, cap);

    assert_eq!(q.take_next().unwrap().id, "t0");
    assert!(q.submit(task("tail")).is_ok());

    q.push_response(Response {
        worker_id: "w1".to_string(),
        result: Some(ResponseResult::Output(vec![0x03])),
    });
    assert_eq!(q.queue_usage().2, 1);
}

#[test]
fn test_generate_task_id_shape() {
    let a = TaskQueue::generate_task_id();
    let b = TaskQueue::generate_task_id();
    assert_eq!(a.len(), 36);
    assert_eq!(b.len(), 36);
    assert_ne!(a, b);
}
