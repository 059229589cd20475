use zerg_pool::balancer::{ScaleError, SelectorError, ZergRushSelector};
use zerg_pool::Process;

fn new_test_process(id: &str) -> Process {
    Process::new(id.to_string(), Vec::new(), None)
}

#[test]
fn test_zerg_rush_selection() {
    // Threshold 0.8; loads 0.6, 0.9, 0.5: node2 is filtered out, and
    // the random pick stays within the surviving top candidates.
    let selector = ZergRushSelector::new(800_000, 1_000, 5_000);
    let nodes = vec![
        (new_test_process("node1"), 600_000u32),
        (new_test_process("node2"), 900_000u32),
        (new_test_process("node3"), 500_000u32),
    ];

    let result = selector.select(&nodes);
    assert!(result.is_ok());
    let selected = &nodes[result.unwrap()].0;
    assert!(selected.id == "node1" || selected.id == "node3");
}

#[test]
fn test_selection_prefers_only_survivor() {
    // With one node under the threshold, placement always returns it.
    let selector = ZergRushSelector::new(800_000, 1_000, 5_000);
    let nodes = vec![
        (new_test_process("hot"), 950_000u32),
        (new_test_process("cool"), 200_000u32),
    ];
    for _ in 0..50 {
        let i = selector.select(&nodes).unwrap();
        assert_eq!(nodes[i].0.id, "cool");
    }
}

#[test]
fn test_selection_no_nodes_available() {
    let selector = ZergRushSelector::new(800_000, 1_000, 5_000);
    let nodes = vec![
        (new_test_process("a"), 900_000u32),
        (new_test_process("b"), 1_000_000u32),
    ];
    assert_eq!(selector.select(&nodes), Err(SelectorError::NoNodesAvailable));
    let empty: Vec<(Process, u32)> = Vec::new();
    assert_eq!(selector.select(&empty), Err(SelectorError::NoNodesAvailable));
}

#[test]
fn test_scale_out_under_high_load() {
    let mut selector = ZergRushSelector::new(800_000, 1_000, 1_000);
    selector.backup_pool.add_node(new_test_process("backup1"));
    let mut main_pool = vec![new_test_process("node1")];

    let result = selector.scale_out(&mut main_pool);
    assert!(result.is_ok());
    assert_eq!(main_pool.len(), 2);
    assert_eq!(main_pool[1].id, "backup1");
}

#[test]
fn test_scale_out_empty_backup_fails_untouched() {
    let mut selector = ZergRushSelector::new(800_000, 1_000, 5_000);
    let mut main_pool = vec![new_test_process("node1")];

    let result = selector.scale_out(&mut main_pool);
    assert_eq!(result, Err(ScaleError::NoBackupNodes));
    assert_eq!(main_pool.len(), 1);
    assert_eq!(selector.backup_pool.len(), 0);
    assert_eq!(selector.scale_outs, 0);
}

#[test]
fn test_graduated_scale_out_admits_after_warmup() {
    // The split operations let the caller pace the warm-up: the worker
    // leaves the backup pool first and joins the active pool only at
    // admission.
    let mut selector = ZergRushSelector::new(800_000, 1_000, 1_000);
    selector.backup_pool.add_node(new_test_process("b"));
    let mut main_pool = vec![new_test_process("a")];

    let node = selector.scale_out_begin().unwrap();
    let (steps, step_ms) = selector.warmup_plan();
    assert_eq!(steps, 10);
    assert_eq!(step_ms, 100);
    // During the warm-up interval placement still sees only the old pool.
    assert_eq!(main_pool.len(), 1);
    assert_eq!(selector.backup_pool.len(), 0);

    selector.scale_out_admit(&mut main_pool, node);
    assert_eq!(main_pool.len(), 2);
    assert_eq!(selector.scale_outs, 1);
}

#[test]
fn test_warmup_step_never_zero() {
    // A warm-up shorter than its ten steps still paces with a
    // one-millisecond step instead of a zero-length one.
    let selector = ZergRushSelector::new(800_000, 1_000, 7);
    let (steps, step_ms) = selector.warmup_plan();
    assert_eq!(steps, 10);
    assert_eq!(step_ms, 1);
}

#[test]
fn test_scale_in_moves_last_to_backup() {
    let mut selector = ZergRushSelector::new(800_000, 1_000, 5_000);
    let mut main_pool = vec![new_test_process("a"), new_test_process("b")];

    assert!(selector.scale_in(&mut main_pool).is_ok());
    assert_eq!(main_pool.len(), 1);
    assert_eq!(selector.backup_pool.len(), 1);

    let mut empty: Vec<Process> = Vec::new();
    assert!(selector.scale_in(&mut empty).is_err());
}

#[test]
fn test_task_counters_saturate_and_count() {
    let mut selector = ZergRushSelector::new(800_000, 1_000, 5_000);
    selector.on_task_submitted();
    selector.on_task_submitted();
    selector.on_task_completed(40);
    selector.on_task_completed(2);
    assert_eq!(selector.tasks_submitted, 2);
    assert_eq!(selector.total_tasks, 2);
    assert_eq!(selector.total_duration, 42);

    selector.total_duration = u64::MAX - 1;
    selector.on_task_completed(10);
    assert_eq!(selector.total_duration, u64::MAX);
}
