use seaki::policy::audit::{AuditAction, AuditRecord};
use seaki::policy::engine::{ApprovalDecision, CapabilityPolicyRequest, FileReadPolicyRequest, PolicyEngine};
use seaki::policy::grant::{
    file_read_grant_scope_hash, snapshot_file, CapabilityGrant, CapabilityGrantRejection, CapabilityStore,
    FileReadGrantInput, FileReadGrantScope, GenericCapabilityGrant, GenericUseCapabilityRequest,
    IssueChannelActionGrantInput, Provenance,
};
use seaki::policy::path::WorkspacePathPolicy;
use seaki::policy::types::{ApprovalStatus, GrantError, PolicyDecision, PolicyReason, SideEffectLevel};

const SECOND: u64 = 1_000_000_000;
const WORKSPACE: &str = "/srv/workspace";
const EXTERNAL: &str = "/srv/external";

/// A workspace and, outside it, files the tests read; paths are given as
/// their canonical forms and contents as the bytes a read would give.
struct Fixture;

impl Fixture {
    fn policy(&self) -> WorkspacePathPolicy {
        WorkspacePathPolicy::try_new(WORKSPACE.to_string()).expect("workspace policy")
    }

    fn engine(&self) -> PolicyEngine {
        PolicyEngine::new(self.policy())
    }

    fn engine_at(&self, now: u64) -> PolicyEngine {
        PolicyEngine::with_fixed_now(self.policy(), now)
    }

    fn external_file(&self, name: &str) -> String {
        format!("{EXTERNAL}/{name}")
    }

    fn request(&self, path: &str, capability_id: Option<&str>) -> FileReadPolicyRequest {
        FileReadPolicyRequest {
            actor_id: "user-1".to_string(),
            workspace_id: "ws-1".to_string(),
            audience: "seaki-source-ingest".to_string(),
            operation: "source.ingest".to_string(),
            path: path.to_string(),
            capability_id: capability_id.map(str::to_string),
        }
    }

    fn grant_input(&self, path: &str, contents: &[u8], now: u64) -> FileReadGrantInput {
        FileReadGrantInput {
            capability_id: "cap-source".to_string(),
            subject_actor_id: "user-1".to_string(),
            workspace_id: "ws-1".to_string(),
            audience: "seaki-source-ingest".to_string(),
            operation: "source.ingest".to_string(),
            path: path.to_string(),
            max_bytes: 1024,
            declared_mime: Some("text/markdown".to_string()),
            not_before: now - SECOND,
            expires_at: now + 60 * SECOND,
            granted_by: "local_user".to_string(),
            approval: self.approval_for(path, contents, now, ApprovalStatus::Approved),
        }
    }

    fn approval_for(&self, canonical_path: &str, contents: &[u8], now: u64, status: ApprovalStatus) -> ApprovalDecision {
        let resource = snapshot_file(contents, 1024).expect("resource within limit");
        ApprovalDecision {
            approval_id: "approval-source".to_string(),
            policy_decision_id: "policy-source".to_string(),
            scope_hash: file_read_grant_scope_hash(&FileReadGrantScope {
                subject_actor_id: "user-1",
                workspace_id: "ws-1",
                audience: "seaki-source-ingest",
                operation: "source.ingest",
                canonical_path,
                max_bytes: 1024,
                declared_mime: Some("text/markdown"),
                resource: &resource,
            }),
            decided_by: "local_user".to_string(),
            status,
            decided_at: now,
        }
    }

    fn issue(&self, engine: &mut PolicyEngine, path: &str, contents: &[u8], now: u64) {
        engine
            .capability_store_mut()
            .issue_file_read_grant(self.grant_input(path, contents, now), Ok(path.to_string()), Ok(contents.to_vec()))
            .expect("issue grant")
            .expect("approved grant");
    }
}

const SOURCE: &[u8] = b"# source";

#[test]
fn workspace_external_path_is_denied_by_default() {
    let fixture = Fixture;
    let external_file = fixture.external_file("outside.txt");
    let mut engine = fixture.engine();

    let evaluation = engine
        .authorize_file_read(&fixture.request(&external_file, None), Ok(external_file.clone()), &Ok(b"secret".to_vec()))
        .expect("policy evaluation");

    assert_eq!(evaluation.decision, PolicyDecision::Deny);
    assert_eq!(evaluation.reason, PolicyReason::PathOutsideWorkspace);
}

#[test]
fn workspace_denylist_overrides_allowlist() {
    let fixture = Fixture;
    let denied_dir = format!("{WORKSPACE}/private");
    let denied_file = format!("{denied_dir}/note.md");
    let policy = fixture.policy().with_deny_roots(vec![denied_dir]).expect("deny roots");
    let mut engine = PolicyEngine::new(policy);

    let evaluation = engine
        .authorize_file_read(&fixture.request(&denied_file, None), Ok(denied_file.clone()), &Ok(b"secret".to_vec()))
        .expect("policy evaluation");

    assert_eq!(evaluation.decision, PolicyDecision::Deny);
    assert_eq!(evaluation.reason, PolicyReason::PathDenied);
}

#[test]
fn workspace_denylist_cannot_be_bypassed_by_grant() {
    let fixture = Fixture;
    let now = 100 * SECOND;
    let denied_dir = format!("{WORKSPACE}/private");
    let denied_file = format!("{denied_dir}/note.md");
    let policy = fixture.policy().with_deny_roots(vec![denied_dir]).expect("deny roots");
    let mut engine = PolicyEngine::with_fixed_now(policy, now);
    fixture.issue(&mut engine, &denied_file, b"secret", now);

    let evaluation = engine
        .authorize_file_read(
            &fixture.request(&denied_file, Some("cap-source")),
            Ok(denied_file.clone()),
            &Ok(b"secret".to_vec()),
        )
        .expect("policy evaluation");

    assert_eq!(evaluation.decision, PolicyDecision::Deny);
    assert_eq!(evaluation.reason, PolicyReason::PathDenied);
    assert_eq!(engine.capability_store().uses_remaining("cap-source").expect("uses remaining"), Some(1));
}

#[test]
fn default_deny_roots_apply_to_directories_created_after_policy_init() {
    let fixture = Fixture;
    let mut engine = fixture.engine();
    let denied_file = format!("{WORKSPACE}/.seaki/secret");

    let evaluation = engine
        .authorize_file_read(&fixture.request(&denied_file, None), Ok(denied_file.clone()), &Ok(b"secret".to_vec()))
        .expect("policy evaluation");

    assert_eq!(evaluation.decision, PolicyDecision::Deny);
    assert_eq!(evaluation.reason, PolicyReason::PathDenied);
}

#[test]
fn grant_is_single_use_and_bound_to_audience() {
    let fixture = Fixture;
    let external_file = fixture.external_file("source.md");
    let now = 100 * SECOND;
    let mut engine = fixture.engine_at(now);
    fixture.issue(&mut engine, &external_file, SOURCE, now);

    let wrong_audience = engine
        .authorize_file_read(
            &FileReadPolicyRequest {
                audience: "seaki-other".to_string(),
                capability_id: Some("cap-source".to_string()),
                ..fixture.request(&external_file, None)
            },
            Ok(external_file.clone()),
            &Ok(SOURCE.to_vec()),
        )
        .expect("wrong audience evaluation");
    assert_eq!(wrong_audience.decision, PolicyDecision::Deny);
    assert_eq!(
        wrong_audience.reason,
        PolicyReason::CapabilityGrantRejected(CapabilityGrantRejection::WrongAudience)
    );
    assert_eq!(engine.capability_store().uses_remaining("cap-source").expect("uses remaining"), Some(1));

    let allowed = engine
        .authorize_file_read(
            &fixture.request(&external_file, Some("cap-source")),
            Ok(external_file.clone()),
            &Ok(SOURCE.to_vec()),
        )
        .expect("allowed evaluation");
    assert_eq!(allowed.decision, PolicyDecision::Allow);
    assert_eq!(allowed.reason, PolicyReason::CapabilityGrant);
    assert_eq!(engine.capability_store().uses_remaining("cap-source").expect("uses remaining"), Some(0));

    let reused = engine
        .authorize_file_read(
            &fixture.request(&external_file, Some("cap-source")),
            Ok(external_file.clone()),
            &Ok(SOURCE.to_vec()),
        )
        .expect("reuse evaluation");
    assert_eq!(reused.decision, PolicyDecision::Deny);
    assert_eq!(reused.reason, PolicyReason::CapabilityGrantRejected(CapabilityGrantRejection::AlreadyUsed));
}

#[test]
fn expired_grant_is_rejected_without_consuming_use() {
    let fixture = Fixture;
    let external_file = fixture.external_file("source.md");
    let issued_at = 100 * SECOND;
    let mut engine = fixture.engine_at(issued_at + 61 * SECOND);
    fixture.issue(&mut engine, &external_file, SOURCE, issued_at);

    let evaluation = engine
        .authorize_file_read(
            &fixture.request(&external_file, Some("cap-source")),
            Ok(external_file.clone()),
            &Ok(SOURCE.to_vec()),
        )
        .expect("expired evaluation");

    assert_eq!(evaluation.decision, PolicyDecision::Deny);
    assert_eq!(evaluation.reason, PolicyReason::CapabilityGrantRejected(CapabilityGrantRejection::Expired));
    assert_eq!(engine.capability_store().uses_remaining("cap-source").expect("uses remaining"), Some(1));
}

#[test]
fn denied_approval_cannot_issue_file_read_grant() {
    let fixture = Fixture;
    let external_file = fixture.external_file("source.md");
    let now = 100 * SECOND;
    let mut store = CapabilityStore::new();

    let result = store
        .issue_file_read_grant(
            FileReadGrantInput {
                approval: fixture.approval_for(&external_file, SOURCE, now, ApprovalStatus::Denied),
                ..fixture.grant_input(&external_file, SOURCE, now)
            },
            Ok(external_file.clone()),
            Ok(SOURCE.to_vec()),
        )
        .expect("issue grant evaluation");

    assert_eq!(result.map(|h| h.capability_id), Err(CapabilityGrantRejection::ApprovalNotApproved));
    assert_eq!(store.uses_remaining("cap-source").expect("uses remaining"), None);
}

#[test]
fn changed_resource_version_rejects_grant_use_without_consuming_it() {
    let fixture = Fixture;
    let external_file = fixture.external_file("source.md");
    let now = 100 * SECOND;
    let mut engine = fixture.engine_at(now);
    fixture.issue(&mut engine, &external_file, SOURCE, now);

    let evaluation = engine
        .authorize_file_read(
            &fixture.request(&external_file, Some("cap-source")),
            Ok(external_file.clone()),
            &Ok(b"# replaced source".to_vec()),
        )
        .expect("policy evaluation");

    assert_eq!(evaluation.decision, PolicyDecision::Deny);
    assert_eq!(evaluation.reason, PolicyReason::CapabilityGrantRejected(CapabilityGrantRejection::ResourceChanged));
    assert_eq!(engine.capability_store().uses_remaining("cap-source").expect("uses remaining"), Some(1));
    assert!(evaluation.audit.grant_fingerprint.is_some());
}

#[test]
fn authorize_file_read_allow() {
    let fixture = Fixture;
    let allowed_file = format!("{WORKSPACE}/allowed.md");
    let mut engine = fixture.engine();

    let evaluation = engine
        .authorize_file_read(&fixture.request(&allowed_file, None), Ok(allowed_file.clone()), &Ok(b"# hello".to_vec()))
        .expect("policy evaluation");

    assert_eq!(evaluation.decision, PolicyDecision::Allow);
    assert_eq!(evaluation.reason, PolicyReason::WorkspaceAllowlist);
}

// ---------------------------------------------------------------------------
// Generic capability grants
// ---------------------------------------------------------------------------

fn issue_wiki_grant(store: &mut CapabilityStore, not_before: u64, expires_at: u64, uses: u32) {
    store
        .issue_capability_grant(
            "cap-wiki".to_string(),
            "user-1".to_string(),
            "ws-1".to_string(),
            "pipe.command.wiki.search".to_string(),
            "seaki-pipe".to_string(),
            "wiki.search".to_string(),
            Some(not_before),
            Some(expires_at),
            uses,
            "local_user".to_string(),
        )
        .unwrap()
        .unwrap();
}

fn wiki_use(now: u64) -> GenericUseCapabilityRequest {
    GenericUseCapabilityRequest {
        capability_id: "cap-wiki".to_string(),
        subject_actor_id: "user-1".to_string(),
        audience: "seaki-pipe".to_string(),
        workspace_id: "ws-1".to_string(),
        capability: "pipe.command.wiki.search".to_string(),
        operation: "wiki.search".to_string(),
        now,
    }
}

#[test]
fn issue_generic_capability_grant() {
    let mut store = CapabilityStore::new();
    let now = 100 * SECOND;
    let result = store.issue_capability_grant(
        "cap-wiki".to_string(),
        "user-1".to_string(),
        "ws-1".to_string(),
        "pipe.command.wiki.search".to_string(),
        "seaki-pipe".to_string(),
        "wiki.search".to_string(),
        Some(now - SECOND),
        Some(now + 60 * SECOND),
        1,
        "local_user".to_string(),
    );
    assert!(result.is_ok());
    let handle = result.unwrap().unwrap();
    assert_eq!(handle.capability_id, "cap-wiki");
    assert_eq!(store.generic_uses_remaining("cap-wiki").unwrap(), Some(1));
}

#[test]
fn consume_generic_grant_success() {
    let mut store = CapabilityStore::new();
    let now = 100 * SECOND;
    issue_wiki_grant(&mut store, now - SECOND, now + 60 * SECOND, 1);

    let result = store.consume_generic_grant(&wiki_use(now)).unwrap();
    assert!(result.is_ok());
    assert_eq!(store.generic_uses_remaining("cap-wiki").unwrap(), Some(0));
}

#[test]
fn consume_generic_grant_expired_fails() {
    let mut store = CapabilityStore::new();
    let now = 100 * SECOND;
    issue_wiki_grant(&mut store, now - 60 * SECOND, now - SECOND, 1);

    let result = store.consume_generic_grant(&wiki_use(now)).unwrap();
    assert_eq!(result.unwrap_err().rejection, CapabilityGrantRejection::Expired);
    assert_eq!(store.generic_uses_remaining("cap-wiki").unwrap(), Some(1));
}

#[test]
fn consume_generic_grant_uses_depleted_fails() {
    let mut store = CapabilityStore::new();
    let now = 100 * SECOND;
    issue_wiki_grant(&mut store, now - SECOND, now + 60 * SECOND, 0);

    let result = store.consume_generic_grant(&wiki_use(now)).unwrap();
    assert_eq!(result.unwrap_err().rejection, CapabilityGrantRejection::AlreadyUsed);
}

#[test]
fn consume_generic_grant_wrong_audience_keeps_use() {
    let mut store = CapabilityStore::new();
    let now = 100 * SECOND;
    issue_wiki_grant(&mut store, now - SECOND, now + 60 * SECOND, 1);

    let request = GenericUseCapabilityRequest { audience: "seaki-other".to_string(), ..wiki_use(now) };
    let result = store.consume_generic_grant(&request).unwrap();
    assert_eq!(result.unwrap_err().rejection, CapabilityGrantRejection::WrongAudience);
    assert_eq!(store.generic_uses_remaining("cap-wiki").unwrap(), Some(1));
}

#[test]
fn authorize_capability_none_level_always_allow() {
    let policy = WorkspacePathPolicy::try_new("/tmp".to_string()).unwrap();
    let mut engine = PolicyEngine::new(policy);
    let request = CapabilityPolicyRequest {
        actor_id: "user-1".to_string(),
        workspace_id: "ws-1".to_string(),
        capability: "pipe.command.wiki.search".to_string(),
        operation: "wiki.search".to_string(),
        capability_id: None,
        side_effect_level: SideEffectLevel::NoEffect,
        audience: "seaki-pipe".to_string(),
    };

    let eval = engine.authorize_capability(&request).unwrap();
    assert_eq!(eval.decision, PolicyDecision::Allow);
}

// ---------------------------------------------------------------------------
// Channel action grants
// ---------------------------------------------------------------------------

fn provenance(citation_ids: Vec<String>) -> Provenance {
    Provenance {
        transaction_id: "tx-1".to_string(),
        source_id: "src-1".to_string(),
        citation_ids,
        thread_scope: "thread-1".to_string(),
        audit_id: "audit-1".to_string(),
    }
}

fn channel_input(ttl: u64, uses: u32, citation_ids: Vec<String>, issued_at: u64) -> IssueChannelActionGrantInput {
    IssueChannelActionGrantInput {
        grant_id: "cg-1".to_string(),
        scope: "scope-1".to_string(),
        audience: "aud-1".to_string(),
        ttl,
        uses,
        idempotency_key: "idem-1".to_string(),
        allowed_actions: vec!["send".to_string()],
        provenance: provenance(citation_ids),
        issued_at,
    }
}

#[test]
fn channel_action_grant_issue_and_consume() {
    let mut store = CapabilityStore::new();
    let now = 100 * SECOND;

    let grant = store
        .issue_channel_action_grant(channel_input(60 * SECOND, 2, vec!["c1".to_string()], now))
        .expect("issue ok")
        .expect("grant ok");
    assert_eq!(grant.grant_id, "cg-1");
    assert_eq!(grant.provenance.transaction_id, "tx-1");

    store.consume_channel_action_grant("cg-1", now + SECOND).expect("consume ok").expect("first use ok");
    assert_eq!(store.channel_action_uses_remaining("cg-1").unwrap(), Some(1));

    store.consume_channel_action_grant("cg-1", now + 2 * SECOND).expect("consume ok").expect("second use ok");
    assert_eq!(store.channel_action_uses_remaining("cg-1").unwrap(), Some(0));

    let result = store.consume_channel_action_grant("cg-1", now + 3 * SECOND).expect("consume ok");
    assert_eq!(result, Err(GrantError::UsesExhausted));
}

#[test]
fn channel_action_grant_expired_cannot_consume() {
    let mut store = CapabilityStore::new();
    let now = 100 * SECOND;
    store.issue_channel_action_grant(channel_input(10 * SECOND, 1, vec![], now)).unwrap().unwrap();

    let result = store.consume_channel_action_grant("cg-1", now + 20 * SECOND);
    assert_eq!(result.unwrap(), Err(GrantError::GrantExpired));
}

// ---------------------------------------------------------------------------
// Audit records of issued grants
// ---------------------------------------------------------------------------

#[test]
fn audit_record_grant_issued() {
    let contents = b"0123456789";
    let resource = snapshot_file(contents, 1024).unwrap();
    let now = 100 * SECOND;
    let grant = CapabilityGrant {
        capability_id: "cap-1".to_string(),
        subject_actor_id: "user-1".to_string(),
        workspace_id: "ws-1".to_string(),
        capability: "file.read".to_string(),
        audience: "seaki-source-ingest".to_string(),
        operation: "source.ingest".to_string(),
        canonical_path: "/tmp/grant.txt".to_string(),
        resource,
        max_bytes: 1024,
        declared_mime: Some("text/markdown".to_string()),
        not_before: now,
        expires_at: now + 60 * SECOND,
        uses_remaining: 1,
        granted_by: "local_user".to_string(),
        approval_id: "approval-1".to_string(),
        policy_decision_id: "policy-1".to_string(),
        revoked_at: None,
    };
    let record = AuditRecord::grant_issued(&grant);
    assert_eq!(record.action, AuditAction::GrantIssued);
    assert_eq!(record.actor_id, "user-1");
    assert_eq!(record.workspace_id, "ws-1");
    assert_eq!(record.audience, "seaki-source-ingest");
    assert_eq!(record.operation, "source.ingest");
    assert_eq!(record.canonical_path, "/tmp/grant.txt");
    assert_eq!(record.capability_id, Some("cap-1".to_string()));
    assert_eq!(record.decision, PolicyDecision::Allow);
    assert_eq!(record.reason, PolicyReason::CapabilityGrant);
    assert!(record.grant_fingerprint.is_some());
    assert_eq!(record.policy_decision_id, "policy-1");
    assert_eq!(record.occurred_at, now);
}

#[test]
fn audit_record_generic_grant_issued() {
    let now = 100 * SECOND;
    let grant = GenericCapabilityGrant {
        capability_id: "cap-wiki".to_string(),
        subject_actor_id: "user-1".to_string(),
        workspace_id: "ws-1".to_string(),
        capability: "pipe.command.wiki.search".to_string(),
        audience: "seaki-pipe".to_string(),
        operation: "wiki.search".to_string(),
        not_before: now,
        expires_at: now + 60 * SECOND,
        uses_remaining: 1,
        granted_by: "local_user".to_string(),
        policy_decision_id: "policy-1".to_string(),
        revoked_at: None,
    };
    let record = AuditRecord::generic_grant_issued(&grant);
    assert_eq!(record.action, AuditAction::GrantIssued);
    assert_eq!(record.actor_id, "user-1");
    assert_eq!(record.workspace_id, "ws-1");
    assert_eq!(record.audience, "seaki-pipe");
    assert_eq!(record.operation, "wiki.search");
    assert_eq!(record.canonical_path, "");
    assert_eq!(record.capability_id, Some("cap-wiki".to_string()));
    assert_eq!(record.decision, PolicyDecision::Allow);
    assert_eq!(record.reason, PolicyReason::CapabilityGrant);
    assert!(record.grant_fingerprint.is_some());
    assert_eq!(record.policy_decision_id, "policy-1");
    assert_eq!(record.occurred_at, now);
}

#[test]
fn snapshot_file_refuses_contents_over_the_limit() {
    assert!(snapshot_file(b"0123456789", 9).is_none());
    let snap = snapshot_file(b"0123456789", 10).unwrap();
    assert_eq!(snap.len, 10);
    assert_eq!(snap.sha256, "84d89877f0d4041efb6bf91a16f0248f2fd573e6af05c19f96bedb9f882f7882");
}

#[test]
fn approval_scope_hash_must_match_grant_resource() {
    let fixture = Fixture;
    let approved_file = fixture.external_file("approved.md");
    let other_file = fixture.external_file("other.md");
    let now = 100 * SECOND;
    let mut store = CapabilityStore::new();

    let result = store
        .issue_file_read_grant(
            FileReadGrantInput {
                approval: fixture.approval_for(&approved_file, b"# approved", now, ApprovalStatus::Approved),
                ..fixture.grant_input(&other_file, b"# other", now)
            },
            Ok(other_file.clone()),
            Ok(b"# other".to_vec()),
        )
        .expect("issue grant evaluation");

    assert_eq!(result.map(|h| h.capability_id), Err(CapabilityGrantRejection::ApprovalScopeMismatch));
    assert_eq!(store.uses_remaining("cap-source").expect("uses remaining"), None);
}
