use std::str::FromStr;

use seaki::policy::audit::{AuditAction, AuditRecord};
use seaki::policy::engine::{CapabilityPolicyRequest, FileReadPolicyRequest, PolicyEngine};
use seaki::policy::path::WorkspacePathPolicy;
use seaki::policy::types::{
    GrantError, PolicyDecision, PolicyError, PolicyReason, SideEffectLevel,
    CAPABILITY_GRANT_VISIBILITY,
};

const SECOND: u64 = 1_000_000_000;

#[test]
fn policy_default_shape_keeps_grants_opaque() {
    assert_eq!(CAPABILITY_GRANT_VISIBILITY, "opaque-id-only");
    assert!(PolicyDecision::Allow.permits_side_effect());
    assert!(!PolicyDecision::Deny.permits_side_effect());
    assert!(!PolicyDecision::RequireApproval.permits_side_effect());
}

fn wiki_request(capability_id: Option<String>, level: SideEffectLevel) -> CapabilityPolicyRequest {
    CapabilityPolicyRequest {
        actor_id: "user-1".to_string(),
        workspace_id: "ws-1".to_string(),
        capability: "pipe.command.wiki.search".to_string(),
        operation: "wiki.search".to_string(),
        capability_id,
        side_effect_level: level,
        audience: "seaki-pipe".to_string(),
    }
}

#[test]
fn authorize_capability_with_grant_allow() {
    let policy = WorkspacePathPolicy::try_new("/tmp".to_string()).unwrap();
    let now = 100 * SECOND;
    let mut engine = PolicyEngine::with_fixed_now(policy, now);
    engine
        .capability_store_mut()
        .issue_capability_grant_at(
            now,
            "cap-wiki".to_string(),
            "user-1".to_string(),
            "ws-1".to_string(),
            "pipe.command.wiki.search".to_string(),
            "seaki-pipe".to_string(),
            "wiki.search".to_string(),
            Some(now - SECOND),
            Some(now + 60 * SECOND),
            1,
            "local_user".to_string(),
        )
        .unwrap()
        .unwrap();

    let request = wiki_request(Some("cap-wiki".to_string()), SideEffectLevel::SideEffect);
    let eval = engine.authorize_capability(&request).unwrap();
    assert_eq!(eval.decision, PolicyDecision::Allow);
    assert_eq!(eval.reason, PolicyReason::CapabilityGrant);
    assert_eq!(
        engine.capability_store().generic_uses_remaining("cap-wiki").unwrap(),
        Some(0)
    );
}

#[test]
fn authorize_capability_no_grant_require_approval() {
    let policy = WorkspacePathPolicy::try_new("/tmp".to_string()).unwrap();
    let mut engine = PolicyEngine::with_fixed_now(policy, 100 * SECOND);
    let request = wiki_request(None, SideEffectLevel::ProposalOnly);
    let eval = engine.authorize_capability(&request).unwrap();
    assert_eq!(eval.decision, PolicyDecision::RequireApproval);
    assert_eq!(eval.reason, PolicyReason::MissingCapabilityGrant);
}

#[test]
fn authorize_capability_second_use_is_refused() {
    let policy = WorkspacePathPolicy::try_new("/tmp".to_string()).unwrap();
    let now = 100 * SECOND;
    let mut engine = PolicyEngine::with_fixed_now(policy, now);
    engine
        .capability_store_mut()
        .issue_capability_grant_at(
            now,
            "cap-wiki".to_string(),
            "user-1".to_string(),
            "ws-1".to_string(),
            "pipe.command.wiki.search".to_string(),
            "seaki-pipe".to_string(),
            "wiki.search".to_string(),
            None,
            None,
            1,
            "local_user".to_string(),
        )
        .unwrap()
        .unwrap();
    let request = wiki_request(Some("cap-wiki".to_string()), SideEffectLevel::SideEffect);
    assert_eq!(engine.authorize_capability(&request).unwrap().decision, PolicyDecision::Allow);
    assert_ne!(engine.authorize_capability(&request).unwrap().decision, PolicyDecision::Allow);
}

fn file_request(capability_id: Option<String>) -> FileReadPolicyRequest {
    FileReadPolicyRequest {
        actor_id: "user-1".to_string(),
        workspace_id: "ws-1".to_string(),
        audience: "seaki-source-ingest".to_string(),
        operation: "source.ingest".to_string(),
        path: "/tmp/test.md".to_string(),
        capability_id,
    }
}

#[test]
fn audit_record_policy_decision() {
    let now = 100 * SECOND;
    let request = file_request(None);
    let canonical_path = "/tmp/test.md";
    let record = AuditRecord::policy_decision(
        &request,
        canonical_path,
        now,
        PolicyDecision::Deny,
        PolicyReason::PathOutsideWorkspace,
    );
    assert_eq!(record.action, AuditAction::PolicyDecision);
    assert_eq!(record.actor_id, "user-1");
    assert_eq!(record.workspace_id, "ws-1");
    assert_eq!(record.audience, "seaki-source-ingest");
    assert_eq!(record.operation, "source.ingest");
    assert_eq!(record.canonical_path, canonical_path);
    assert_eq!(record.capability_id, None);
    assert_eq!(record.grant_fingerprint, None);
    assert_eq!(record.decision, PolicyDecision::Deny);
    assert_eq!(record.reason, PolicyReason::PathOutsideWorkspace);
    assert_eq!(record.occurred_at, now);
    assert_eq!(record.policy_decision_id.len(), 64);
}

#[test]
fn audit_record_capability_consumed() {
    let now = 100 * SECOND;
    let request = file_request(Some("cap-1".to_string()));
    let canonical_path = "/tmp/test.md";
    let record = AuditRecord::capability_consumed(
        &request,
        canonical_path,
        "cap-1",
        Some("fingerprint-1".to_string()),
        now,
        PolicyDecision::Allow,
        PolicyReason::CapabilityGrant,
    );
    assert_eq!(record.action, AuditAction::CapabilityConsumed);
    assert_eq!(record.actor_id, "user-1");
    assert_eq!(record.workspace_id, "ws-1");
    assert_eq!(record.audience, "seaki-source-ingest");
    assert_eq!(record.operation, "source.ingest");
    assert_eq!(record.canonical_path, canonical_path);
    assert_eq!(record.capability_id, Some("cap-1".to_string()));
    assert_eq!(record.grant_fingerprint, Some("fingerprint-1".to_string()));
    assert_eq!(record.decision, PolicyDecision::Allow);
    assert_eq!(record.reason, PolicyReason::CapabilityGrant);
    assert_eq!(record.occurred_at, now);
}

#[test]
fn audit_decision_id_depends_on_time() {
    let request = file_request(None);
    let a = AuditRecord::policy_decision(&request, "/tmp/test.md", SECOND, PolicyDecision::Deny, PolicyReason::PathOutsideWorkspace);
    let b = AuditRecord::policy_decision(&request, "/tmp/test.md", 2 * SECOND, PolicyDecision::Deny, PolicyReason::PathOutsideWorkspace);
    assert_ne!(a.policy_decision_id, b.policy_decision_id);
}

#[test]
fn side_effect_level_from_str_invalid() {
    assert_eq!(
        SideEffectLevel::from_str("invalid"),
        Err("unknown side_effect_level: invalid".to_string())
    );
}

#[test]
fn side_effect_level_from_str_roundtrip() {
    for level in [SideEffectLevel::NoEffect, SideEffectLevel::ProposalOnly, SideEffectLevel::SideEffect] {
        assert_eq!(SideEffectLevel::from_str(level.as_str()), Ok(level));
    }
}

#[test]
fn policy_error_display() {
    let err1 = PolicyError::PathCanonicalizeFailed {
        path: "/tmp/test".to_string(),
        message: "no such file".to_string(),
    };
    assert_eq!(err1.to_string(), "failed to canonicalize /tmp/test: no such file");

    let err2 = PolicyError::CapabilityStorePoisoned;
    assert_eq!(err2.to_string(), "capability store lock poisoned");

    let err3 = PolicyError::DuplicateCapabilityId("cap-1".to_string());
    assert_eq!(err3.to_string(), "duplicate capability id: cap-1");

    let err4 = PolicyError::UnsupportedCapability("file.write".to_string());
    assert_eq!(err4.to_string(), "unsupported capability: file.write");
}

#[test]
fn grant_error_display() {
    assert_eq!(GrantError::DuplicateGrantId("g1".to_string()).to_string(), "duplicate grant id: g1");
    assert_eq!(GrantError::GrantNotFound.to_string(), "grant not found");
    assert_eq!(GrantError::GrantExpired.to_string(), "grant expired");
    assert_eq!(GrantError::UsesExhausted.to_string(), "uses exhausted");
}
