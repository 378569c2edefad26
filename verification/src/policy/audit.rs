//! Policy audit records.

use vstd::prelude::*;

use crate::policy::grant::{generic_grant_fingerprint, CapabilityGrant, GenericCapabilityGrant};
use crate::hash::{hash_text, hash_text_spec};
use crate::policy::engine::{CapabilityPolicyRequest, FileReadPolicyRequest};
use crate::policy::types::{PolicyDecision, PolicyReason, Timestamp};
use crate::text::{concat2, decimal, join_lines, join_with_newlines, owned, u64_to_decimal, views};

verus! {

#[derive(Debug, Clone, Copy, PartialEq, Eq, Structural)]
pub enum AuditAction {
    GrantIssued,
    PolicyDecision,
    CapabilityConsumed,
}

#[derive(Debug, Clone, PartialEq, Eq)]
pub struct AuditRecord {
    pub policy_decision_id: String,
    pub action: AuditAction,
    pub occurred_at: Timestamp,
    pub actor_id: String,
    pub workspace_id: String,
    pub audience: String,
    pub operation: String,
    pub canonical_path: String,
    pub capability_id: Option<String>,
    pub grant_fingerprint: Option<String>,
    pub decision: PolicyDecision,
    pub reason: PolicyReason,
}

impl AuditRecord {
    /// The record of an issued file read grant.
    pub fn grant_issued(grant: &CapabilityGrant) -> (r: Self)
        ensures
            crate::policy::grant::file_issued_audit(r, *grant),
    {
        AuditRecord {
            policy_decision_id: grant.policy_decision_id.clone(),
            action: AuditAction::GrantIssued,
            occurred_at: grant.not_before,
            actor_id: grant.subject_actor_id.clone(),
            workspace_id: grant.workspace_id.clone(),
            audience: grant.audience.clone(),
            operation: grant.operation.clone(),
            canonical_path: grant.canonical_path.clone(),
            capability_id: Some(grant.capability_id.clone()),
            grant_fingerprint: Some(grant.fingerprint()),
            decision: PolicyDecision::Allow,
            reason: PolicyReason::CapabilityGrant,
        }
    }

    /// The record of an issued generic grant.
    pub fn generic_grant_issued(grant: &GenericCapabilityGrant) -> (r: Self)
        ensures
            crate::policy::grant::generic_issued_audit(r, *grant),
    {
        AuditRecord {
            policy_decision_id: grant.policy_decision_id.clone(),
            action: AuditAction::GrantIssued,
            occurred_at: grant.not_before,
            actor_id: grant.subject_actor_id.clone(),
            workspace_id: grant.workspace_id.clone(),
            audience: grant.audience.clone(),
            operation: grant.operation.clone(),
            canonical_path: String::new(),
            capability_id: Some(grant.capability_id.clone()),
            grant_fingerprint: Some(generic_grant_fingerprint(grant)),
            decision: PolicyDecision::Allow,
            reason: PolicyReason::CapabilityGrant,
        }
    }
}


/// How a `SystemTime` `t` nanoseconds after the epoch prints with `{:?}` on
/// Unix: `SystemTime { tv_sec: S, tv_nsec: N }`.
pub open spec fn time_debug_text(t: Timestamp) -> Seq<char> {
    "SystemTime { tv_sec: "@ + decimal((t / 1_000_000_000) as nat) + ", tv_nsec: "@ + decimal(
        (t % 1_000_000_000) as nat,
    ) + " }"@
}

/// The debug text of an instant (see `time_debug_text`).
pub fn time_debug(t: Timestamp) -> (r: String)
    ensures
        r@ == time_debug_text(t),
{
    let head = concat2("SystemTime { tv_sec: ", u64_to_decimal(t / 1_000_000_000).as_str());
    let mid = concat2(head.as_str(), ", tv_nsec: ");
    let tail = concat2(mid.as_str(), u64_to_decimal(t % 1_000_000_000).as_str());
    concat2(tail.as_str(), " }")
}

/// The id of a file read policy decision: the hash of the request's actor,
/// workspace, audience, operation, the canonical path and the instant.
pub open spec fn file_decision_id(request: FileReadPolicyRequest, canonical_path: Seq<char>, t: Timestamp) -> Seq<char> {
    hash_text_spec(join_lines(seq![
        request.actor_id@,
        request.workspace_id@,
        request.audience@,
        request.operation@,
        canonical_path,
        time_debug_text(t),
    ]))
}

/// The id of a capability policy decision.
pub open spec fn generic_decision_id(request: CapabilityPolicyRequest, t: Timestamp) -> Seq<char> {
    hash_text_spec(join_lines(seq![
        "generic"@,
        request.actor_id@,
        request.workspace_id@,
        request.capability@,
        request.operation@,
        time_debug_text(t),
    ]))
}

/// The id of a file read policy decision.
pub fn policy_decision_id(request: &FileReadPolicyRequest, canonical_path: &str, occurred_at: Timestamp) -> (r: String)
    ensures
        r@ == file_decision_id(*request, canonical_path@, occurred_at),
{
    let mut parts: Vec<String> = Vec::new();
    parts.push(request.actor_id.clone());
    parts.push(request.workspace_id.clone());
    parts.push(request.audience.clone());
    parts.push(request.operation.clone());
    parts.push(owned(canonical_path));
    parts.push(time_debug(occurred_at));
    assert(views(parts@) =~= seq![
        request.actor_id@,
        request.workspace_id@,
        request.audience@,
        request.operation@,
        canonical_path@,
        time_debug_text(occurred_at),
    ]);
    hash_text(join_with_newlines(&parts).as_str())
}

/// A record of a file read decision on `canonical_path` at `t`.
pub open spec fn decision_audit(
    a: AuditRecord,
    request: FileReadPolicyRequest,
    canonical_path: Seq<char>,
    t: Timestamp,
    decision: PolicyDecision,
    reason: PolicyReason,
) -> bool {
    &&& a.policy_decision_id@ == file_decision_id(request, canonical_path, t)
    &&& a.action == AuditAction::PolicyDecision
    &&& a.occurred_at == t
    &&& a.actor_id == request.actor_id
    &&& a.workspace_id == request.workspace_id
    &&& a.audience == request.audience
    &&& a.operation == request.operation
    &&& a.canonical_path@ == canonical_path
    &&& a.capability_id is None
    &&& a.grant_fingerprint is None
    &&& a.decision == decision
    &&& a.reason == reason
}

/// A record of a capability consumed (or refused) for a file read at `t`.
pub open spec fn consumed_audit(
    a: AuditRecord,
    request: FileReadPolicyRequest,
    canonical_path: Seq<char>,
    capability_id: Seq<char>,
    grant_fingerprint: Option<String>,
    t: Timestamp,
    decision: PolicyDecision,
    reason: PolicyReason,
) -> bool {
    &&& a.policy_decision_id@ == file_decision_id(request, canonical_path, t)
    &&& a.action == AuditAction::CapabilityConsumed
    &&& a.occurred_at == t
    &&& a.actor_id == request.actor_id
    &&& a.workspace_id == request.workspace_id
    &&& a.audience == request.audience
    &&& a.operation == request.operation
    &&& a.canonical_path@ == canonical_path
    &&& (a.capability_id matches Some(c) && c@ == capability_id)
    &&& a.grant_fingerprint == grant_fingerprint
    &&& a.decision == decision
    &&& a.reason == reason
}

/// A record of a capability decision at `t`.
pub open spec fn generic_decision_audit(
    a: AuditRecord,
    request: CapabilityPolicyRequest,
    t: Timestamp,
    decision: PolicyDecision,
    reason: PolicyReason,
) -> bool {
    &&& a.policy_decision_id@ == generic_decision_id(request, t)
    &&& a.action == AuditAction::PolicyDecision
    &&& a.occurred_at == t
    &&& a.actor_id == request.actor_id
    &&& a.workspace_id == request.workspace_id
    &&& a.audience == request.audience
    &&& a.operation == request.operation
    &&& a.canonical_path@ == Seq::<char>::empty()
    &&& a.capability_id == request.capability_id
    &&& a.grant_fingerprint is None
    &&& a.decision == decision
    &&& a.reason == reason
}

fn clone_opt_string(o: &Option<String>) -> (r: Option<String>)
    ensures
        r == *o,
{
    match o {
        Some(s) => Some(s.clone()),
        None => None,
    }
}

impl AuditRecord {
    /// The record of a file read decision.
    pub fn policy_decision(
        request: &FileReadPolicyRequest,
        canonical_path: &str,
        occurred_at: Timestamp,
        decision: PolicyDecision,
        reason: PolicyReason,
    ) -> (r: Self)
        ensures
            decision_audit(r, *request, canonical_path@, occurred_at, decision, reason),
    {
        AuditRecord {
            policy_decision_id: policy_decision_id(request, canonical_path, occurred_at),
            action: AuditAction::PolicyDecision,
            occurred_at,
            actor_id: request.actor_id.clone(),
            workspace_id: request.workspace_id.clone(),
            audience: request.audience.clone(),
            operation: request.operation.clone(),
            canonical_path: owned(canonical_path),
            capability_id: None,
            grant_fingerprint: None,
            decision,
            reason,
        }
    }

    /// The record of a file read decided by a capability grant.
    #[allow(clippy::too_many_arguments)]
    pub fn capability_consumed(
        request: &FileReadPolicyRequest,
        canonical_path: &str,
        capability_id: &str,
        grant_fingerprint: Option<String>,
        occurred_at: Timestamp,
        decision: PolicyDecision,
        reason: PolicyReason,
    ) -> (r: Self)
        ensures
            consumed_audit(r, *request, canonical_path@, capability_id@, grant_fingerprint, occurred_at, decision, reason),
    {
        AuditRecord {
            policy_decision_id: policy_decision_id(request, canonical_path, occurred_at),
            action: AuditAction::CapabilityConsumed,
            occurred_at,
            actor_id: request.actor_id.clone(),
            workspace_id: request.workspace_id.clone(),
            audience: request.audience.clone(),
            operation: request.operation.clone(),
            canonical_path: owned(canonical_path),
            capability_id: Some(owned(capability_id)),
            grant_fingerprint,
            decision,
            reason,
        }
    }

    /// The record of a capability decision.
    pub fn generic_policy_decision(
        request: &CapabilityPolicyRequest,
        occurred_at: Timestamp,
        decision: PolicyDecision,
        reason: PolicyReason,
    ) -> (r: Self)
        ensures
            generic_decision_audit(r, *request, occurred_at, decision, reason),
    {
        let mut parts: Vec<String> = Vec::new();
        parts.push(owned("generic"));
        parts.push(request.actor_id.clone());
        parts.push(request.workspace_id.clone());
        parts.push(request.capability.clone());
        parts.push(request.operation.clone());
        parts.push(time_debug(occurred_at));
        proof { reveal_strlit("generic"); }
        assert(views(parts@) =~= seq![
            "generic"@,
            request.actor_id@,
            request.workspace_id@,
            request.capability@,
            request.operation@,
            time_debug_text(occurred_at),
        ]);
        AuditRecord {
            policy_decision_id: hash_text(join_with_newlines(&parts).as_str()),
            action: AuditAction::PolicyDecision,
            occurred_at,
            actor_id: request.actor_id.clone(),
            workspace_id: request.workspace_id.clone(),
            audience: request.audience.clone(),
            operation: request.operation.clone(),
            canonical_path: String::new(),
            capability_id: clone_opt_string(&request.capability_id),
            grant_fingerprint: None,
            decision,
            reason,
        }
    }
}

} // verus!
