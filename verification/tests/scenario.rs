use zerg_pool::balancer::ZergRushSelector;
use zerg_pool::codec::{decode_message, encode_message};
use zerg_pool::drone::TaskQueue;
use zerg_pool::engine::TaskEngine;
use zerg_pool::proto::{HealthState, Heartbeat, Registration, Response, ResponseResult, Task};
use zerg_pool::queen::DronePool;
use zerg_pool::ProcessMessage;

#[test]
fn test_simple_dispatch_scenario() {
    // One worker registers and reports light load; a submitted task is
    // placed on it, travels the wire both ways, and its result reaches
    // the caller side.
    let mut pool = DronePool::new("127.0.0.1:9000".to_string());
    let mut engine = TaskEngine::new(1024, false);
    let selector = ZergRushSelector::new(800_000, 1_000, 5_000);

    let reg = Registration {
        worker_id: "w1".to_string(),
        max_threads: 10,
        version: "1.0.0".to_string(),
        capabilities: vec!["compute".to_string()],
    };
    pool.handle_message(ProcessMessage::Registration(reg), 0).unwrap();
    let hb = Heartbeat {
        worker_id: "w1".to_string(),
        timestamp: 1,
        state: HealthState::Healthy,
        cpu_usage: 100_000,
        mem_usage: 100_000,
        net_latency: 10,
        current_tasks: 0,
        max_tasks: 10,
    };
    pool.handle_message(ProcessMessage::Heartbeat(hb), 1_000).unwrap();

    // Submission and placement.
    engine
        .submit(Task {
            id: "t1".to_string(),
            payload: vec![0x01, 0x02],
            timestamp: 1,
            metadata: Vec::new(),
            priority: None,
        })
        .unwrap();
    let task = engine.take_next().unwrap();
    let target = pool.place(&selector).unwrap();
    assert_eq!(target, "w1");
    assert!(pool.record_dispatch(&target));
    engine.record_dispatch(task.id.clone(), target.clone(), 1_000, 1_010);

    // The task crosses the wire to the worker.
    let frame = encode_message(&ProcessMessage::Task(task)).unwrap();
    let received = match decode_message(&frame).unwrap() {
        ProcessMessage::Task(t) => t,
        _ => panic!("wrong kind"),
    };
    let mut queue = TaskQueue::new();
    queue.submit(received).unwrap();
    let job = queue.take_next().unwrap();

    // The test worker sums the payload bytes: 0x01 + 0x02 = 0x03.
    let output = vec![job.payload.iter().fold(0u8, |a, b| a.wrapping_add(*b))];
    let response = Response {
        worker_id: "w1".to_string(),
        result: Some(ResponseResult::Output(output)),
    };

    // The response crosses the wire back and resolves the caller.
    let frame = encode_message(&ProcessMessage::TaskResponse(response)).unwrap();
    match decode_message(&frame).unwrap() {
        ProcessMessage::TaskResponse(r) => {
            assert_eq!(r.worker_id, "w1");
            match r.result {
                Some(ResponseResult::Output(b)) => assert_eq!(b, vec![0x03]),
                _ => panic!("wrong result"),
            }
        },
        _ => panic!("wrong kind"),
    }
    let elapsed = engine.complete(&job.id, 1_030).unwrap();
    assert_eq!(elapsed, 20);
    assert_eq!(engine.total_tasks, 1);
}

#[test]
fn test_random_pick_smears_across_top_candidates() {
    // With hardware parallelism of at least four, the top candidates
    // include at least the two best nodes; over many rounds the random
    // pick should not collapse onto a single one. The chance of one
    // candidate taking all 200 rounds is negligible.
    let cores = num_cpus::get();
    if cores < 4 {
        return;
    }
    let selector = ZergRushSelector::new(800_000, 1_000, 5_000);
    let nodes = vec![
        (zerg_pool::Process::new("a".to_string(), Vec::new(), None), 100_000u32),
        (zerg_pool::Process::new("b".to_string(), Vec::new(), None), 100_001u32),
    ];
    let mut seen_a = false;
    let mut seen_b = false;
    for _ in 0..200 {
        match selector.select(&nodes).unwrap() {
            0 => seen_a = true,
            1 => seen_b = true,
            _ => panic!("index out of range"),
        }
    }
    assert!(seen_a && seen_b);
}
