use zerg_pool::codec::{decode_message, encode_message, DecodeError, EncodeError};
use zerg_pool::proto::{Heartbeat, HealthState, Registration, Response, ResponseResult, Status, Task};
use zerg_pool::ProcessMessage;

#[test]
fn test_registration_round_trip() {
    let m = ProcessMessage::Registration(Registration {
        worker_id: "worker-1".to_string(),
        max_threads: 8,
        version: "1.0.0".to_string(),
        capabilities: vec!["compute".to_string(), "io".to_string()],
    });
    let bytes = encode_message(&m).unwrap();
    match decode_message(&bytes).unwrap() {
        ProcessMessage::Registration(d) => {
            assert_eq!(d.worker_id, "worker-1");
            assert_eq!(d.max_threads, 8);
            assert_eq!(d.version, "1.0.0");
            assert_eq!(d.capabilities, vec!["compute".to_string(), "io".to_string()]);
        },
        _ => panic!("wrong kind"),
    }
}

#[test]
fn test_registration_round_trip_negative_threads_and_empty_caps() {
    let m = ProcessMessage::Registration(Registration {
        worker_id: "w".to_string(),
        max_threads: -3,
        version: String::new(),
        capabilities: Vec::new(),
    });
    let bytes = encode_message(&m).unwrap();
    match decode_message(&bytes).unwrap() {
        ProcessMessage::Registration(d) => {
            assert_eq!(d.max_threads, -3);
            assert_eq!(d.version, "");
            assert!(d.capabilities.is_empty());
        },
        _ => panic!("wrong kind"),
    }
}

#[test]
fn test_heartbeat_round_trip() {
    let m = ProcessMessage::Heartbeat(Heartbeat {
        worker_id: "w1".to_string(),
        timestamp: -12345,
        state: HealthState::Unhealthy,
        cpu_usage: 873_001,
        mem_usage: 12,
        net_latency: 250,
        current_tasks: 7,
        max_tasks: 16,
    });
    let bytes = encode_message(&m).unwrap();
    match decode_message(&bytes).unwrap() {
        ProcessMessage::Heartbeat(d) => {
            assert_eq!(d.worker_id, "w1");
            assert_eq!(d.timestamp, -12345);
            assert_eq!(d.state, HealthState::Unhealthy);
            assert_eq!(d.cpu_usage, 873_001);
            assert_eq!(d.mem_usage, 12);
            assert_eq!(d.net_latency, 250);
            assert_eq!(d.current_tasks, 7);
            assert_eq!(d.max_tasks, 16);
        },
        _ => panic!("wrong kind"),
    }
}

#[test]
fn test_task_round_trip_with_metadata_and_priority() {
    let m = ProcessMessage::Task(Task {
        id: "task-9".to_string(),
        payload: vec![0x01, 0x02, 0xFF, 0x00],
        timestamp: 1_700_000_000,
        metadata: vec![
            ("tenant".to_string(), "alpha".to_string()),
            ("trace".to_string(), "xyz".to_string()),
        ],
        priority: Some(5),
    });
    let bytes = encode_message(&m).unwrap();
    match decode_message(&bytes).unwrap() {
        ProcessMessage::Task(d) => {
            assert_eq!(d.id, "task-9");
            assert_eq!(d.payload, vec![0x01, 0x02, 0xFF, 0x00]);
            assert_eq!(d.timestamp, 1_700_000_000);
            assert_eq!(d.metadata.len(), 2);
            assert_eq!(d.metadata[0], ("tenant".to_string(), "alpha".to_string()));
            assert_eq!(d.metadata[1], ("trace".to_string(), "xyz".to_string()));
            assert_eq!(d.priority, Some(5));
        },
        _ => panic!("wrong kind"),
    }
}

#[test]
fn test_task_round_trip_without_priority() {
    let m = ProcessMessage::Task(Task {
        id: "t".to_string(),
        payload: Vec::new(),
        timestamp: 0,
        metadata: Vec::new(),
        priority: None,
    });
    let bytes = encode_message(&m).unwrap();
    match decode_message(&bytes).unwrap() {
        ProcessMessage::Task(d) => {
            assert!(d.payload.is_empty());
            assert!(d.metadata.is_empty());
            assert_eq!(d.priority, None);
        },
        _ => panic!("wrong kind"),
    }
}

#[test]
fn test_response_round_trip_both_variants() {
    let ok = ProcessMessage::TaskResponse(Response {
        worker_id: "w1".to_string(),
        result: Some(ResponseResult::Output(vec![0x03])),
    });
    let bytes = encode_message(&ok).unwrap();
    match decode_message(&bytes).unwrap() {
        ProcessMessage::TaskResponse(d) => {
            assert_eq!(d.worker_id, "w1");
            match d.result {
                Some(ResponseResult::Output(b)) => assert_eq!(b, vec![0x03]),
                _ => panic!("wrong result"),
            }
        },
        _ => panic!("wrong kind"),
    }

    let err = ProcessMessage::TaskResponse(Response {
        worker_id: "w2".to_string(),
        result: Some(ResponseResult::Error("boom".to_string())),
    });
    let bytes = encode_message(&err).unwrap();
    match decode_message(&bytes).unwrap() {
        ProcessMessage::TaskResponse(d) => {
            assert_eq!(d.worker_id, "w2");
            match d.result {
                Some(ResponseResult::Error(e)) => assert_eq!(e, "boom"),
                _ => panic!("wrong result"),
            }
        },
        _ => panic!("wrong kind"),
    }
}

#[test]
fn test_encode_rejects_missing_result() {
    let m = ProcessMessage::TaskResponse(Response { worker_id: "w".to_string(), result: None });
    assert_eq!(encode_message(&m), Err(EncodeError::MissingResult));
}

#[test]
fn test_encode_rejects_out_of_range_values() {
    let hb = ProcessMessage::Heartbeat(Heartbeat {
        worker_id: "w".to_string(),
        timestamp: 0,
        state: HealthState::Healthy,
        cpu_usage: 2_000_000,
        mem_usage: 0,
        net_latency: 0,
        current_tasks: 0,
        max_tasks: 1,
    });
    assert_eq!(encode_message(&hb), Err(EncodeError::InvalidValue));

    let t = ProcessMessage::Task(Task {
        id: "t".to_string(),
        payload: Vec::new(),
        timestamp: 0,
        metadata: Vec::new(),
        priority: Some(11),
    });
    assert_eq!(encode_message(&t), Err(EncodeError::InvalidValue));
}

#[test]
fn test_encode_rejects_duplicate_metadata_keys() {
    let t = ProcessMessage::Task(Task {
        id: "t".to_string(),
        payload: Vec::new(),
        timestamp: 0,
        metadata: vec![
            ("tenant".to_string(), "alpha".to_string()),
            ("tenant".to_string(), "beta".to_string()),
        ],
        priority: None,
    });
    assert_eq!(encode_message(&t), Err(EncodeError::DuplicateKey));
}

#[test]
fn test_decode_error_variants() {
    // Empty frame.
    assert!(matches!(decode_message(&Vec::new()), Err(DecodeError::Truncated)));

    // Unknown kind byte.
    assert!(matches!(decode_message(&vec![9u8]), Err(DecodeError::UnknownKind)));

    // Registration whose first field carries the wrong tag.
    let bad_tag = vec![0u8, 2, 0, 0, 0, 0];
    assert!(matches!(decode_message(&bad_tag), Err(DecodeError::UnexpectedTag)));

    // Registration whose worker id is not UTF-8.
    let bad_utf8 = vec![0u8, 1, 1, 0, 0, 0, 0xFF];
    assert!(matches!(decode_message(&bad_utf8), Err(DecodeError::InvalidUtf8)));

    // Heartbeat whose timestamp field has the wrong width.
    let bad_width = vec![
        1u8, // heartbeat
        1, 1, 0, 0, 0, b'w', // field 1: "w"
        2, 4, 0, 0, 0, 0, 0, 0, 0, // field 2 with a 4-byte payload
    ];
    assert!(matches!(decode_message(&bad_width), Err(DecodeError::InvalidValue)));

    // A frame that ends in the middle of a field.
    let truncated = vec![0u8, 1, 200, 0, 0, 0, b'a'];
    assert!(matches!(decode_message(&truncated), Err(DecodeError::Truncated)));
}

#[test]
fn test_decode_rejects_out_of_range_heartbeat() {
    // Build a valid heartbeat, then raise the on-wire CPU ratio above
    // full scale; the decoder must refuse it.
    let m = ProcessMessage::Heartbeat(Heartbeat {
        worker_id: "w".to_string(),
        timestamp: 0,
        state: HealthState::Healthy,
        cpu_usage: 0,
        mem_usage: 0,
        net_latency: 0,
        current_tasks: 0,
        max_tasks: 1,
    });
    let mut bytes = encode_message(&m).unwrap();
    // Field 4 (cpu) payload starts after: kind (1) + field1 (5 + 1) +
    // field2 (5 + 8) + field3 (5 + 4) + field4 header (5).
    let cpu_pos = 1 + 6 + 13 + 9 + 5;
    bytes[cpu_pos] = 0xFF;
    bytes[cpu_pos + 1] = 0xFF;
    bytes[cpu_pos + 2] = 0xFF;
    bytes[cpu_pos + 3] = 0xFF;
    assert!(matches!(decode_message(&bytes), Err(DecodeError::InvalidValue)));
}

#[test]
fn test_status_and_health_names() {
    assert_eq!(Status::Success.as_str_name(), "SUCCESS");
    assert_eq!(Status::Failure.as_str_name(), "FAILURE");
    assert_eq!(Status::Processing.as_str_name(), "PROCESSING");
    assert_eq!(Status::Timeout.as_str_name(), "TIMEOUT");
    assert_eq!(Status::from_str_name("SUCCESS"), Some(Status::Success));
    assert_eq!(Status::from_str_name("TIMEOUT"), Some(Status::Timeout));
    assert_eq!(Status::from_str_name("nope"), None);

    assert_eq!(HealthState::Healthy.as_str_name(), "HEALTHY");
    assert_eq!(HealthState::Unhealthy.as_str_name(), "UNHEALTHY");
    assert_eq!(HealthState::CircuitBreaker.as_str_name(), "CIRCUIT_BREAKER");
    assert_eq!(HealthState::from_str_name("HEALTHY"), Some(HealthState::Healthy));
    assert_eq!(
        HealthState::from_str_name("CIRCUIT_BREAKER"),
        Some(HealthState::CircuitBreaker)
    );
    assert_eq!(HealthState::from_str_name(""), None);
}
