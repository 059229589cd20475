use zerg_pool::queen::DronePool;
use zerg_pool::proto::HealthState;
use zerg_pool::proto::{Heartbeat, Registration};
use zerg_pool::balancer::ZergRushSelector;
use zerg_pool::ProcessMessage;
use zerg_pool::{Process, RegistrationError};

fn drone(id: &str, endpoint: &str) -> Process {
    Process {
        id: id.to_string(),
        endpoint: endpoint.to_string(),
        capability: vec!["compute".to_string()],
        max_tasks: None,
        weight: 1_000_000,
        current_load: 0,
    }
}

#[test]
fn test_register_drone() {
    let mut pool = DronePool::new("tcp://127.0.0.1:9001".to_string());
    let d = Process {
        id: "worker-1".to_string(),
        endpoint: "127.0.0.1:8080".to_string(),
        capability: vec!["compute".to_string()],
        max_tasks: None,
        weight: 1_000_000,
        current_load: 0,
    };

    assert!(pool.register_drone(d).is_ok());
    assert_eq!(pool.get_worker_count(), 1);
}

#[test]
fn test_invalid_endpoint() {
    let mut pool = DronePool::new("tcp://127.0.0.1:9001".to_string());
    let d = Process {
        id: "worker-1".to_string(),
        endpoint: "invalid_address".to_string(),
        capability: Vec::new(),
        max_tasks: None,
        weight: 1_000_000,
        current_load: 0,
    };

    assert!(matches!(pool.register_drone(d), Err(RegistrationError::InvalidEndpoint)));
    assert_eq!(pool.get_worker_count(), 0);
}

#[test]
fn test_reregistration_keeps_one_entry_and_timestamp() {
    // Registering the same id twice leaves one entry whose original
    // registration timestamp survives, with the metrics reset.
    let mut pool = DronePool::new("127.0.0.1:9000".to_string());
    assert!(pool.register_at(drone("w1", "127.0.0.1:8080"), 5).is_ok());
    pool.update_worker_metrics(&"w1".to_string(), 400_000, 300_000, 25, 3, 6);

    assert!(pool.register_at(drone("w1", "127.0.0.1:8080"), 9).is_ok());
    assert_eq!(pool.get_worker_count(), 1);
    let st = pool.get_worker_metrics(&"w1".to_string()).unwrap();
    assert_eq!(st.registered_at, 5);
    assert_eq!(st.cpu_usage, 0);
    assert_eq!(st.current_tasks, 0);
    assert_eq!(st.last_heartbeat, 9);
}

#[test]
fn test_active_pool_capped_at_ten() {
    let mut pool = DronePool::new("127.0.0.1:9000".to_string());
    for i in 0..12 {
        let id = format!("w{}", i);
        assert!(pool.register_at(drone(&id, "127.0.0.1:8080"), 1).is_ok());
    }
    // The active pool stops at its cap; later workers wait in backup.
    assert_eq!(pool.get_worker_count(), 10);
    assert!(pool.get_worker_metrics(&"w11".to_string()).is_some());
}

#[test]
fn test_heartbeat_updates_metrics_and_health() {
    let mut pool = DronePool::new("127.0.0.1:9000".to_string());
    pool.register_at(drone("w1", "127.0.0.1:8080"), 0).unwrap();

    pool.update_worker_metrics(&"w1".to_string(), 950_000, 100_000, 10, 1, 100);
    let st = pool.get_worker_metrics(&"w1".to_string()).unwrap();
    assert_eq!(st.health_state, HealthState::Unhealthy);

    pool.update_worker_metrics(&"w1".to_string(), 100_000, 100_000, 10, 1, 200);
    let st = pool.get_worker_metrics(&"w1".to_string()).unwrap();
    assert_eq!(st.health_state, HealthState::Healthy);
    assert_eq!(st.cpu_usage, 100_000);
    assert_eq!(st.last_heartbeat, 200);
}

#[test]
fn test_missed_deadlines_trip_circuit_breaker() {
    // Three missed nine-second deadlines quarantine the worker, and the
    // optimal-worker query stops returning it.
    let mut pool = DronePool::new("127.0.0.1:9000".to_string());
    pool.register_at(drone("w1", "127.0.0.1:8080"), 0).unwrap();

    pool.check_deadlines(10_000);
    let st = pool.get_worker_metrics(&"w1".to_string()).unwrap();
    assert_eq!(st.health_state, HealthState::Unhealthy);
    assert_eq!(st.timeout_count, 1);

    pool.check_deadlines(20_000);
    pool.check_deadlines(30_000);
    let st = pool.get_worker_metrics(&"w1".to_string()).unwrap();
    assert!(st.timeout_count >= 3);
    assert_eq!(st.health_state, HealthState::CircuitBreaker);
    assert_eq!(pool.get_optimal_worker(), None);

    // The breaker is absorbing: a later heartbeat does not heal it.
    pool.update_worker_metrics(&"w1".to_string(), 100_000, 100_000, 10, 0, 40_000);
    let st = pool.get_worker_metrics(&"w1".to_string()).unwrap();
    assert_eq!(st.health_state, HealthState::CircuitBreaker);

    let unhealthy = pool.get_unhealthy_drones();
    assert_eq!(unhealthy.len(), 1);
    assert_eq!(unhealthy[0], "w1");
}

#[test]
fn test_optimal_worker_prefers_lowest_score() {
    let mut pool = DronePool::new("127.0.0.1:9000".to_string());
    pool.register_at(drone("w1", "127.0.0.1:8080"), 0).unwrap();
    pool.register_at(drone("w2", "127.0.0.1:8081"), 0).unwrap();

    pool.update_worker_metrics(&"w1".to_string(), 950_000, 200_000, 10, 0, 100);
    pool.update_worker_metrics(&"w2".to_string(), 200_000, 200_000, 10, 0, 100);

    // w1 is overloaded and therefore unhealthy; only w2 is eligible.
    assert_eq!(pool.get_optimal_worker(), Some("w2".to_string()));
}

#[test]
fn test_placement_skips_overloaded_worker() {
    let mut pool = DronePool::new("127.0.0.1:9000".to_string());
    pool.register_at(drone("w1", "127.0.0.1:8080"), 0).unwrap();
    pool.register_at(drone("w2", "127.0.0.1:8081"), 0).unwrap();

    pool.update_worker_metrics(&"w1".to_string(), 890_000, 890_000, 10, 0, 100);
    pool.update_worker_metrics(&"w2".to_string(), 200_000, 200_000, 10, 0, 100);

    let selector = ZergRushSelector::new(800_000, 1_000, 5_000);
    for _ in 0..25 {
        // w1 stays healthy but scores above the threshold; placement
        // repeatedly picks w2.
        let id = pool.place(&selector).unwrap();
        assert_eq!(id, "w2");
    }
}

#[test]
fn test_dispatch_admission_respects_limit() {
    let mut pool = DronePool::new("127.0.0.1:9000".to_string());
    let mut d = drone("w1", "127.0.0.1:8080");
    d.max_tasks = Some(2);
    pool.register_at(d, 0).unwrap();
    pool.update_worker_metrics(&"w1".to_string(), 100_000, 100_000, 10, 0, 100);

    assert!(pool.record_dispatch(&"w1".to_string()));
    assert!(pool.record_dispatch(&"w1".to_string()));
    // At the limit, admission refuses and the count never exceeds it.
    assert!(!pool.record_dispatch(&"w1".to_string()));
    let st = pool.get_worker_metrics(&"w1".to_string()).unwrap();
    assert_eq!(st.current_tasks, 2);
    assert_eq!(st.max_tasks, 2);
}

#[test]
fn test_handle_message_registers_and_updates() {
    let mut pool = DronePool::new("127.0.0.1:9000".to_string());
    let reg = Registration {
        worker_id: "w1".to_string(),
        max_threads: 4,
        version: "1.0.0".to_string(),
        capabilities: vec!["compute".to_string()],
    };
    assert!(pool.handle_message(ProcessMessage::Registration(reg), 7).is_ok());
    assert_eq!(pool.get_worker_count(), 1);

    let hb = Heartbeat {
        worker_id: "w1".to_string(),
        timestamp: 1,
        state: HealthState::Healthy,
        cpu_usage: 300_000,
        mem_usage: 250_000,
        net_latency: 12,
        current_tasks: 1,
        max_tasks: 4,
    };
    assert!(pool.handle_message(ProcessMessage::Heartbeat(hb), 2_000).is_ok());
    let st = pool.get_worker_metrics(&"w1".to_string()).unwrap();
    assert_eq!(st.cpu_usage, 300_000);
    assert_eq!(st.net_latency, 12);
    assert_eq!(st.last_heartbeat, 2_000);
}

#[test]
fn test_declared_zero_limit_is_kept_and_never_dispatched() {
    // A worker that declares a concurrency limit of 0 keeps it: the
    // first heartbeat marks it overloaded, and admission never
    // dispatches to it.
    let mut pool = DronePool::new("127.0.0.1:9000".to_string());
    let mut d = drone("w0", "127.0.0.1:8080");
    d.max_tasks = Some(0);
    pool.register_at(d, 0).unwrap();

    let st = pool.get_worker_metrics(&"w0".to_string()).unwrap();
    assert_eq!(st.max_tasks, 0);
    assert!(!pool.record_dispatch(&"w0".to_string()));

    pool.update_worker_metrics(&"w0".to_string(), 100_000, 100_000, 10, 0, 100);
    let st = pool.get_worker_metrics(&"w0".to_string()).unwrap();
    assert_eq!(st.health_state, HealthState::Unhealthy);
    assert!(!pool.record_dispatch(&"w0".to_string()));
}

#[test]
fn test_unhealthy_list_has_no_duplicates() {
    let mut pool = DronePool::new("127.0.0.1:9000".to_string());
    pool.register_at(drone("w1", "127.0.0.1:8080"), 0).unwrap();
    pool.register_at(drone("w2", "127.0.0.1:8081"), 0).unwrap();
    pool.check_deadlines(10_000);
    pool.check_deadlines(20_000);
    let unhealthy = pool.get_unhealthy_drones();
    assert_eq!(unhealthy.len(), 2);
    assert_ne!(unhealthy[0], unhealthy[1]);
}
