use kube_virsh::gate::{await_ready_events, gate_step, GateError, GateEvent, GateState};

#[test]
fn gate_succeeds_on_modified_running() {
    let events = vec![
        GateEvent::Modified { phase: "Pending".to_string() },
        GateEvent::Modified { phase: "Running".to_string() },
    ];
    assert_eq!(await_ready_events(&events), Ok(()));
}

#[test]
fn gate_succeeds_on_added_already_running() {
    let events = vec![GateEvent::Added { phase: "Running".to_string() }];
    assert_eq!(await_ready_events(&events), Ok(()));
}

#[test]
fn gate_times_out_on_pending_and_waiting_only() {
    let events = vec![
        GateEvent::Added { phase: "Pending".to_string() },
        GateEvent::Modified { phase: "Pending".to_string() },
        GateEvent::Modified { phase: "Waiting".to_string() },
    ];
    assert_eq!(await_ready_events(&events), Err(GateError::Timeout));
}

#[test]
fn gate_times_out_on_empty_stream() {
    assert_eq!(await_ready_events(&Vec::new()), Err(GateError::Timeout));
}

#[test]
fn gate_ignores_deleted_and_error_events() {
    let events = vec![
        GateEvent::Deleted,
        GateEvent::Error,
        GateEvent::Modified { phase: "Running".to_string() },
    ];
    assert_eq!(await_ready_events(&events), Ok(()));
}

#[test]
fn gate_step_waits_until_running_then_stays_ready() {
    let s0 = GateState::AwaitingReady;
    let s1 = gate_step(s0, &GateEvent::Modified { phase: "Pending".to_string() });
    assert_eq!(s1, GateState::AwaitingReady);
    let s2 = gate_step(s1, &GateEvent::Modified { phase: "Running".to_string() });
    assert_eq!(s2, GateState::Ready);
    let s3 = gate_step(s2, &GateEvent::Deleted);
    assert_eq!(s3, GateState::Ready);
}
