use zerg_pool::engine::{SubmitError, TaskEngine};
use zerg_pool::proto::Task;

fn task(id: &str) -> Task {
    Task {
        id: id.to_string(),
        payload: vec![0x01, 0x02],
        timestamp: 0,
        metadata: Vec::new(),
        priority: None,
    }
}

#[test]
fn test_queue_full_fails_fast_without_dropping() {
    let mut engine = TaskEngine::new(2, false);
    assert!(engine.submit(task("a")).is_ok());
    assert!(engine.submit(task("b")).is_ok());
    assert_eq!(engine.submit(task("c")), Err(SubmitError::PoolFull));
    // The refused task displaced nothing: both accepted tasks drain.
    assert_eq!(engine.take_next().unwrap().id, "a");
    assert_eq!(engine.take_next().unwrap().id, "b");
    assert!(engine.take_next().is_none());
}

#[test]
fn test_queue_full_backpressures() {
    let mut engine = TaskEngine::new(1, true);
    assert!(engine.submit(task("a")).is_ok());
    assert_eq!(engine.submit(task("b")), Err(SubmitError::Backpressure));
    // Once the caller drains and retries, the submission lands.
    engine.take_next();
    assert!(engine.submit(task("b")).is_ok());
}

#[test]
fn test_fifo_order_per_engine() {
    let mut engine = TaskEngine::new(16, false);
    for i in 0..5 {
        engine.submit(task(&format!("t{}", i))).unwrap();
    }
    for i in 0..5 {
        assert_eq!(engine.take_next().unwrap().id, format!("t{}", i));
    }
}

#[test]
fn test_graceful_shutdown() {
    // Submit a hundred tasks and shut down at once: none is lost, new
    // submissions fail with the shutdown error, and every accepted
    // task drains.
    let mut engine = TaskEngine::new(1024, false);
    for i in 0..100 {
        assert!(engine.submit(task(&format!("t{}", i))).is_ok());
    }
    engine.shutdown();
    assert_eq!(engine.submit(task("late")), Err(SubmitError::Shutdown));

    let mut drained = 0;
    while engine.take_next().is_some() {
        drained += 1;
    }
    assert_eq!(drained, 100);
}

#[test]
fn test_dispatch_accounting_and_completion() {
    let mut engine = TaskEngine::new(16, false);
    let slow = engine.record_dispatch("t1".to_string(), "w1".to_string(), 0, 10);
    assert!(!slow);
    let slow = engine.record_dispatch("t2".to_string(), "w1".to_string(), 0, 100);
    assert!(slow);

    let elapsed = engine.complete(&"t1".to_string(), 40).unwrap();
    assert_eq!(elapsed, 30);
    assert_eq!(engine.total_tasks, 1);
    assert_eq!(engine.total_duration_ms, 30);

    assert!(engine.complete(&"t1".to_string(), 50).is_none());
    let elapsed = engine.complete(&"t2".to_string(), 160).unwrap();
    assert_eq!(elapsed, 60);
    assert_eq!(engine.total_tasks, 2);
    assert_eq!(engine.total_duration_ms, 90);
}
