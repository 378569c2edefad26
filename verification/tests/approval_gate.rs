use seaki::pipe::approval_gate::{
    wait_step, ApprovalGate, ApprovalGateError, ApprovalRequestInput, InMemoryApprovalGate,
};
use seaki::policy::types::ApprovalStatus;

fn sample_request() -> ApprovalRequestInput {
    ApprovalRequestInput {
        pipeline_id: "pipe-1".to_string(),
        step_id: "s1".to_string(),
        actor_id: "actor-1".to_string(),
        workspace_id: "ws-1".to_string(),
        operation: "test.op".to_string(),
        reason: "test reason".to_string(),
    }
}

#[test]
fn approval_gate_request_returns_id() {
    let mut gate = InMemoryApprovalGate::new();
    let id = gate.request_approval(sample_request()).unwrap();
    assert!(!id.is_empty());
    assert!(id.starts_with("approval-pipe-1-"));
}

#[test]
fn approval_gate_poll_pending_then_approved() {
    let mut gate = InMemoryApprovalGate::new();
    let id = gate.request_approval(sample_request()).unwrap();

    assert_eq!(gate.poll_approval(&id).unwrap(), ApprovalStatus::Pending);

    gate.approve(&id).unwrap();
    assert_eq!(gate.poll_approval(&id).unwrap(), ApprovalStatus::Approved);
}

#[test]
fn approval_gate_denied_no_execute() {
    let mut gate = InMemoryApprovalGate::new();
    let id = gate.request_approval(sample_request()).unwrap();

    gate.deny(&id).unwrap();
    let status = gate.poll_approval(&id).unwrap();
    assert_eq!(status, ApprovalStatus::Denied);
}

#[test]
fn approval_gate_ids_are_distinct() {
    let mut gate = InMemoryApprovalGate::new();
    let a = gate.request(sample_request()).unwrap();
    let b = gate.request(sample_request()).unwrap();
    assert_ne!(a, b);
    assert_eq!(gate.poll(&a).unwrap(), ApprovalStatus::Pending);
}

#[test]
fn approval_gate_unknown_id_not_found() {
    let mut gate = InMemoryApprovalGate::new();
    assert_eq!(
        gate.poll("nope"),
        Err(ApprovalGateError::NotFound("nope".to_string()))
    );
    assert_eq!(
        gate.approve("nope"),
        Err(ApprovalGateError::NotFound("nope".to_string()))
    );
}

#[test]
fn approval_wait_step_times_out() {
    let r = wait_step("a-1", ApprovalStatus::Pending, 60, 50);
    assert_eq!(
        r,
        Err(ApprovalGateError::Timeout { approval_id: "a-1".to_string(), timeout_ms: 50 })
    );
}

#[test]
fn approval_gate_error_display() {
    let e = ApprovalGateError::Timeout { approval_id: "a".to_string(), timeout_ms: 5 };
    assert_eq!(e.to_string(), "approval timeout: id=a, timeout=5ms");
}

#[test]
fn approval_gate_wait_timeout() {
    let mut gate = InMemoryApprovalGate::new();
    let id = gate.request_approval(sample_request()).unwrap();

    let result = gate.wait_for_approval(&id, 50);
    assert!(matches!(
        result,
        Err(ApprovalGateError::Timeout {
            approval_id,
            timeout_ms: 50,
        }) if approval_id == id
    ));
}

#[test]
fn approval_gate_wait_returns_a_decision() {
    let mut gate = InMemoryApprovalGate::new();
    let id = gate.request_approval(sample_request()).unwrap();
    gate.approve(&id).unwrap();
    assert_eq!(gate.wait_for_approval(&id, 5_000).unwrap(), ApprovalStatus::Approved);
}
