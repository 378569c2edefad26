//! Policy engine: workspace reads and capability requests.

use vstd::prelude::*;

use crate::policy::audit::{consumed_audit, decision_audit, generic_decision_audit, AuditRecord};
use crate::policy::grant::{
    consume_file_post, consume_generic_post, current_time, generic_valid_for, CapabilityStore, GenericUseCapabilityRequest,
    UseCapabilityRequest,
};
use crate::policy::path::WorkspacePathPolicy;
use crate::policy::types::{
    ApprovalStatus, PolicyDecision, PolicyError, PolicyEvaluation, PolicyReason, PolicyResult, SideEffectLevel, Timestamp,
    FILE_READ_CAPABILITY,
};
use crate::text::owned;

verus! {

#[derive(Debug, Clone, PartialEq, Eq)]
pub struct ApprovalRequest {
    pub approval_id: String,
    pub actor_id: String,
    pub workspace_id: String,
    pub operation: String,
    pub reason: String,
    pub status: ApprovalStatus,
}

#[derive(Debug, Clone, PartialEq, Eq)]
pub struct ApprovalDecision {
    pub approval_id: String,
    pub policy_decision_id: String,
    pub scope_hash: String,
    pub decided_by: String,
    pub status: ApprovalStatus,
    pub decided_at: Timestamp,
}

/// A file read request. `path` is the path as requested; the engine decides on
/// its canonical form, which the caller resolves.
#[derive(Debug, Clone, PartialEq, Eq)]
pub struct FileReadPolicyRequest {
    pub actor_id: String,
    pub workspace_id: String,
    pub audience: String,
    pub operation: String,
    pub path: String,
    pub capability_id: Option<String>,
}

#[derive(Debug, PartialEq, Eq)]
pub struct CapabilityPolicyRequest {
    pub actor_id: String,
    pub workspace_id: String,
    pub capability: String,
    pub operation: String,
    pub capability_id: Option<String>,
    pub side_effect_level: SideEffectLevel,
    pub audience: String,
}


/// A store request that stands for a file read request with capability `cid` on `path` at `now`.
pub open spec fn file_use_matches(
    u: UseCapabilityRequest,
    request: FileReadPolicyRequest,
    cid: Seq<char>,
    path: Seq<char>,
    now: Timestamp,
) -> bool {
    &&& u.capability_id@ == cid
    &&& u.subject_actor_id@ == request.actor_id@
    &&& u.audience@ == request.audience@
    &&& u.workspace_id@ == request.workspace_id@
    &&& u.capability@ == FILE_READ_CAPABILITY@
    &&& u.operation@ == request.operation@
    &&& u.canonical_path@ == path
    &&& u.now == now
}

/// A store request that stands for a capability request with capability `cid` at `now`.
pub open spec fn generic_use_matches(
    u: GenericUseCapabilityRequest,
    request: CapabilityPolicyRequest,
    cid: Seq<char>,
    now: Timestamp,
) -> bool {
    &&& u.capability_id@ == cid
    &&& u.subject_actor_id@ == request.actor_id@
    &&& u.audience@ == request.audience@
    &&& u.workspace_id@ == request.workspace_id@
    &&& u.capability@ == request.capability@
    &&& u.operation@ == request.operation@
    &&& u.now == now
}

/// The evaluation of a file read on `path` that the workspace policy decides.
pub open spec fn workspace_evaluation(
    r: PolicyResult<PolicyEvaluation>,
    request: FileReadPolicyRequest,
    path: Seq<char>,
    now: Timestamp,
    decision: PolicyDecision,
    reason: PolicyReason,
) -> bool {
    r matches Ok(ev) && ev.decision == decision && ev.reason == reason && decision_audit(ev.audit, request, path, now,
        decision, reason)
}

/// The evaluation of a file read that a grant decided, from what the store answered.
pub open spec fn grant_evaluation(
    r: PolicyResult<PolicyEvaluation>,
    request: FileReadPolicyRequest,
    path: Seq<char>,
    cid: Seq<char>,
    now: Timestamp,
    answer: PolicyResult<Result<crate::policy::grant::CapabilityConsumption, crate::policy::grant::CapabilityUseFailure>>,
) -> bool {
    match answer {
        Err(e) => r == Err::<PolicyEvaluation, PolicyError>(e),
        Ok(Ok(c)) => r matches Ok(ev) && ev.decision == PolicyDecision::Allow && ev.reason == PolicyReason::CapabilityGrant
            && consumed_audit(ev.audit, request, path, cid, Some(c.grant_fingerprint), now, PolicyDecision::Allow,
            PolicyReason::CapabilityGrant),
        Ok(Err(f)) => r matches Ok(ev) && ev.decision == PolicyDecision::Deny && ev.reason
            == PolicyReason::CapabilityGrantRejected(f.rejection) && consumed_audit(ev.audit, request, path, cid,
            f.grant_fingerprint, now, PolicyDecision::Deny, PolicyReason::CapabilityGrantRejected(f.rejection)),
    }
}

/// What evaluating a file read at `now` does: the workspace policy decides
/// first (its denial wins); outside the allowed roots a capability grant named
/// by the request may allow the read, consuming its use.
pub open spec fn file_read_post(
    policy: WorkspacePathPolicy,
    old: CapabilityStore,
    new: CapabilityStore,
    request: FileReadPolicyRequest,
    now: Timestamp,
    canonical_path: PolicyResult<String>,
    contents: PolicyResult<Vec<u8>>,
    r: PolicyResult<PolicyEvaluation>,
) -> bool {
    match canonical_path {
        Err(e) => new == old && r == Err::<PolicyEvaluation, PolicyError>(e),
        Ok(path) => if policy.allowlisted(path@) && !policy.denied(path@) {
            new == old && workspace_evaluation(r, request, path@, now, PolicyDecision::Allow, PolicyReason::WorkspaceAllowlist)
        } else if policy.denied(path@) {
            new == old && workspace_evaluation(r, request, path@, now, PolicyDecision::Deny, PolicyReason::PathDenied)
        } else {
            match request.capability_id {
                None => new == old && workspace_evaluation(r, request, path@, now, PolicyDecision::Deny,
                    PolicyReason::PathOutsideWorkspace),
                Some(cid) => exists|u: UseCapabilityRequest, answer| #![auto]
                    file_use_matches(u, request, cid@, path@, now) && consume_file_post(old, new, u, contents, answer)
                        && grant_evaluation(r, request, path@, cid@, now, answer),
            }
        },
    }
}

/// The evaluation of a capability request, by whether a grant serves it.
pub open spec fn capability_evaluation(
    r: PolicyResult<PolicyEvaluation>,
    request: CapabilityPolicyRequest,
    now: Timestamp,
    granted: bool,
) -> bool {
    if granted {
        r matches Ok(ev) && ev.decision == PolicyDecision::Allow && ev.reason == PolicyReason::CapabilityGrant
            && generic_decision_audit(ev.audit, request, now, PolicyDecision::Allow, PolicyReason::CapabilityGrant)
    } else {
        r matches Ok(ev) && ev.decision == PolicyDecision::RequireApproval && ev.reason
            == PolicyReason::MissingCapabilityGrant && generic_decision_audit(ev.audit, request, now,
            PolicyDecision::RequireApproval, PolicyReason::MissingCapabilityGrant)
    }
}

/// What evaluating a capability request at `now` does: a request without side
/// effects is allowed; otherwise the named grant is consumed, or, with none
/// named, some valid grant must exist; without one, approval is required.
pub open spec fn capability_post(
    old: CapabilityStore,
    new: CapabilityStore,
    request: CapabilityPolicyRequest,
    now: Timestamp,
    r: PolicyResult<PolicyEvaluation>,
) -> bool {
    if request.side_effect_level == SideEffectLevel::NoEffect {
        new == old && (r matches Ok(ev) && ev.decision == PolicyDecision::Allow && ev.reason
            == PolicyReason::WorkspaceAllowlist && generic_decision_audit(ev.audit, request, now, PolicyDecision::Allow,
            PolicyReason::WorkspaceAllowlist))
    } else {
        match request.capability_id {
            Some(cid) => exists|u: GenericUseCapabilityRequest, answer| #![auto]
                generic_use_matches(u, request, cid@, now) && consume_generic_post(old, new, u, answer) && match answer {
                    Err(e) => r == Err::<PolicyEvaluation, PolicyError>(e),
                    Ok(res) => capability_evaluation(r, request, now, res is Ok),
                },
            None => new == old && capability_evaluation(r, request, now, exists|i: int| 0 <= i < old.generic().len()
                && generic_valid_for(#[trigger] old.generic()[i], request.actor_id@, request.workspace_id@,
                request.capability@, request.operation@, request.audience@, now)),
        }
    }
}

impl Clone for CapabilityPolicyRequest {
    fn clone(&self) -> (r: Self)
        ensures
            r == *self,
    {
        CapabilityPolicyRequest {
            actor_id: self.actor_id.clone(),
            workspace_id: self.workspace_id.clone(),
            capability: self.capability.clone(),
            operation: self.operation.clone(),
            capability_id: match &self.capability_id {
                Some(c) => Some(c.clone()),
                None => None,
            },
            side_effect_level: self.side_effect_level,
            audience: self.audience.clone(),
        }
    }
}

/// Decides file reads and capability requests: a workspace path policy, a
/// capability store, and optionally a fixed clock.
#[derive(Debug)]
pub struct PolicyEngine {
    workspace_policy: WorkspacePathPolicy,
    capability_store: CapabilityStore,
    fixed_now: Option<Timestamp>,
}

impl PolicyEngine {
    pub closed spec fn policy(&self) -> WorkspacePathPolicy {
        self.workspace_policy
    }

    pub closed spec fn store(&self) -> CapabilityStore {
        self.capability_store
    }

    pub closed spec fn fixed(&self) -> Option<Timestamp> {
        self.fixed_now
    }

    pub fn new(workspace_policy: WorkspacePathPolicy) -> (r: Self)
        ensures
            r.policy() == workspace_policy,
            r.store().wf(),
            r.store().file_grants().len() == 0,
            r.store().generic().len() == 0,
            r.store().channel().len() == 0,
            r.store().memory().len() == 0,
            r.store().source().len() == 0,
            r.fixed() is None,
    {
        PolicyEngine { workspace_policy, capability_store: CapabilityStore::new(), fixed_now: None }
    }

    pub fn with_fixed_now(workspace_policy: WorkspacePathPolicy, now: Timestamp) -> (r: Self)
        ensures
            r.policy() == workspace_policy,
            r.store().wf(),
            r.store().file_grants().len() == 0,
            r.store().generic().len() == 0,
            r.store().channel().len() == 0,
            r.store().memory().len() == 0,
            r.store().source().len() == 0,
            r.fixed() == Some(now),
    {
        PolicyEngine { workspace_policy, capability_store: CapabilityStore::new(), fixed_now: Some(now) }
    }

    pub fn with_capability_store(workspace_policy: WorkspacePathPolicy, capability_store: CapabilityStore) -> (r: Self)
        ensures
            r.policy() == workspace_policy,
            r.store() == capability_store,
            r.fixed() is None,
    {
        PolicyEngine { workspace_policy, capability_store, fixed_now: None }
    }

    pub fn with_capability_store_and_fixed_now(
        workspace_policy: WorkspacePathPolicy,
        capability_store: CapabilityStore,
        now: Timestamp,
    ) -> (r: Self)
        ensures
            r.policy() == workspace_policy,
            r.store() == capability_store,
            r.fixed() == Some(now),
    {
        PolicyEngine { workspace_policy, capability_store, fixed_now: Some(now) }
    }

    pub fn capability_store(&self) -> (r: &CapabilityStore)
        ensures
            *r == self.store(),
    {
        &self.capability_store
    }

    /// The store, for issuing grants.
    pub fn capability_store_mut(&mut self) -> (r: &mut CapabilityStore)
        ensures
            *r == old(self).store(),
            final(self).store() == *final(r),
            final(self).policy() == old(self).policy(),
            final(self).fixed() == old(self).fixed(),
    {
        &mut self.capability_store
    }

    /// The fixed instant, or the current time.
    fn now(&self) -> (r: Timestamp)
        ensures
            self.fixed() matches Some(t) ==> r == t,
    {
        match self.fixed_now {
            Some(t) => t,
            None => current_time(),
        }
    }

    /// Evaluates a file read at `now`. `canonical_path` is the caller's
    /// resolution of `request.path`, and `contents` the bytes of that file,
    /// looked at only when a grant is consumed.
    pub fn authorize_file_read_at(
        &mut self,
        request: &FileReadPolicyRequest,
        now: Timestamp,
        canonical_path: PolicyResult<String>,
        contents: &PolicyResult<Vec<u8>>,
    ) -> (r: PolicyResult<PolicyEvaluation>)
        requires
            old(self).store().wf(),
        ensures
            final(self).store().wf(),
            final(self).policy() == old(self).policy(),
            final(self).fixed() == old(self).fixed(),
            file_read_post(old(self).policy(), old(self).store(), final(self).store(), *request, now, canonical_path,
                *contents, r),
    {
        let path = match canonical_path {
            Ok(p) => p,
            Err(e) => {
                return Err(e);
            },
        };
        let wd = match self.workspace_policy.classify_workspace_read(path.as_str()) {
            Ok(d) => d,
            Err(e) => {
                return Err(e);
            },
        };
        if wd.decision.permits_side_effect() {
            return Ok(PolicyEvaluation::allow(
                PolicyReason::WorkspaceAllowlist,
                AuditRecord::policy_decision(request, path.as_str(), now, PolicyDecision::Allow,
                    PolicyReason::WorkspaceAllowlist),
            ));
        }
        if wd.reason == PolicyReason::PathDenied {
            return Ok(PolicyEvaluation::deny(
                PolicyReason::PathDenied,
                AuditRecord::policy_decision(request, path.as_str(), now, PolicyDecision::Deny, PolicyReason::PathDenied),
            ));
        }
        let capability_id = match &request.capability_id {
            Some(c) => c,
            None => {
                return Ok(PolicyEvaluation::deny(
                    wd.reason,
                    AuditRecord::policy_decision(request, path.as_str(), now, PolicyDecision::Deny, wd.reason),
                ));
            },
        };
        let use_request = UseCapabilityRequest {
            capability_id: capability_id.clone(),
            subject_actor_id: request.actor_id.clone(),
            audience: request.audience.clone(),
            workspace_id: request.workspace_id.clone(),
            capability: owned(FILE_READ_CAPABILITY),
            operation: request.operation.clone(),
            canonical_path: path.clone(),
            now,
        };
        let answer = self.capability_store.consume_file_read_grant(&use_request, contents);
        assert(file_use_matches(use_request, *request, capability_id@, path@, now));
        match answer {
            Err(e) => Err(e),
            Ok(Ok(consumption)) => Ok(PolicyEvaluation::allow(
                PolicyReason::CapabilityGrant,
                AuditRecord::capability_consumed(request, path.as_str(), capability_id.as_str(),
                    Some(consumption.grant_fingerprint), now, PolicyDecision::Allow, PolicyReason::CapabilityGrant),
            )),
            Ok(Err(failure)) => {
                let reason = PolicyReason::CapabilityGrantRejected(failure.rejection);
                Ok(PolicyEvaluation::deny(
                    reason,
                    AuditRecord::capability_consumed(request, path.as_str(), capability_id.as_str(),
                        failure.grant_fingerprint, now, PolicyDecision::Deny, reason),
                ))
            },
        }
    }

    /// Evaluates a file read at the engine's instant (see `authorize_file_read_at`).
    pub fn authorize_file_read(
        &mut self,
        request: &FileReadPolicyRequest,
        canonical_path: PolicyResult<String>,
        contents: &PolicyResult<Vec<u8>>,
    ) -> (r: PolicyResult<PolicyEvaluation>)
        requires
            old(self).store().wf(),
        ensures
            final(self).store().wf(),
            final(self).policy() == old(self).policy(),
            final(self).fixed() == old(self).fixed(),
            exists|now: Timestamp| #![auto]
                (old(self).fixed() matches Some(t) ==> now == t) && file_read_post(old(self).policy(), old(self).store(),
                    final(self).store(), *request, now, canonical_path, *contents, r),
    {
        let now = self.now();
        self.authorize_file_read_at(request, now, canonical_path, contents)
    }

    /// Evaluates a capability request at `now`.
    pub fn authorize_capability_at(&mut self, request: &CapabilityPolicyRequest, now: Timestamp) -> (r: PolicyResult<
        PolicyEvaluation,
    >)
        requires
            old(self).store().wf(),
        ensures
            final(self).store().wf(),
            final(self).policy() == old(self).policy(),
            final(self).fixed() == old(self).fixed(),
            capability_post(old(self).store(), final(self).store(), *request, now, r),
    {
        if request.side_effect_level == SideEffectLevel::NoEffect {
            return Ok(PolicyEvaluation::allow(
                PolicyReason::WorkspaceAllowlist,
                AuditRecord::generic_policy_decision(request, now, PolicyDecision::Allow, PolicyReason::WorkspaceAllowlist),
            ));
        }
        let has_grant = match &request.capability_id {
            Some(capability_id) => {
                let use_request = GenericUseCapabilityRequest {
                    capability_id: capability_id.clone(),
                    subject_actor_id: request.actor_id.clone(),
                    audience: request.audience.clone(),
                    workspace_id: request.workspace_id.clone(),
                    capability: request.capability.clone(),
                    operation: request.operation.clone(),
                    now,
                };
                let answer = self.capability_store.consume_generic_grant(&use_request);
                assert(generic_use_matches(use_request, *request, capability_id@, now));
                match answer {
                    Err(e) => {
                        return Err(e);
                    },
                    Ok(res) => res.is_ok(),
                }
            },
            None => match self.capability_store.has_valid_generic_grant(
                request.actor_id.as_str(),
                request.workspace_id.as_str(),
                request.capability.as_str(),
                request.operation.as_str(),
                request.audience.as_str(),
                now,
            ) {
                Err(e) => {
                    return Err(e);
                },
                Ok(b) => b,
            },
        };
        if has_grant {
            Ok(PolicyEvaluation::allow(
                PolicyReason::CapabilityGrant,
                AuditRecord::generic_policy_decision(request, now, PolicyDecision::Allow, PolicyReason::CapabilityGrant),
            ))
        } else {
            Ok(PolicyEvaluation {
                decision: PolicyDecision::RequireApproval,
                reason: PolicyReason::MissingCapabilityGrant,
                audit: AuditRecord::generic_policy_decision(request, now, PolicyDecision::RequireApproval,
                    PolicyReason::MissingCapabilityGrant),
            })
        }
    }

    /// Evaluates a capability request at the engine's instant (see `authorize_capability_at`).
    pub fn authorize_capability(&mut self, request: &CapabilityPolicyRequest) -> (r: PolicyResult<PolicyEvaluation>)
        requires
            old(self).store().wf(),
        ensures
            final(self).store().wf(),
            final(self).policy() == old(self).policy(),
            final(self).fixed() == old(self).fixed(),
            exists|now: Timestamp| #![auto]
                (old(self).fixed() matches Some(t) ==> now == t) && capability_post(old(self).store(), final(self).store(),
                    *request, now, r),
    {
        let now = self.now();
        self.authorize_capability_at(request, now)
    }
}


/// A read of a denied path is denied whatever grant the request names, and
/// no grant is used.
pub proof fn law_denied_path_beats_grants(
    policy: WorkspacePathPolicy,
    old: CapabilityStore,
    new: CapabilityStore,
    request: FileReadPolicyRequest,
    now: Timestamp,
    canonical_path: PolicyResult<String>,
    contents: PolicyResult<Vec<u8>>,
    r: PolicyResult<PolicyEvaluation>,
)
    requires
        file_read_post(policy, old, new, request, now, canonical_path, contents, r),
        canonical_path matches Ok(p) && policy.denied(p@),
    ensures
        new == old,
        r matches Ok(ev) && ev.decision == PolicyDecision::Deny && ev.reason == PolicyReason::PathDenied,
{
}

/// A read outside the allowed roots that names no grant is denied.
pub proof fn law_outside_path_needs_a_grant(
    policy: WorkspacePathPolicy,
    old: CapabilityStore,
    new: CapabilityStore,
    request: FileReadPolicyRequest,
    now: Timestamp,
    canonical_path: PolicyResult<String>,
    contents: PolicyResult<Vec<u8>>,
    r: PolicyResult<PolicyEvaluation>,
)
    requires
        file_read_post(policy, old, new, request, now, canonical_path, contents, r),
        canonical_path matches Ok(p) && !policy.allowlisted(p@),
        request.capability_id is None,
    ensures
        new == old,
        r matches Ok(ev) && ev.decision == PolicyDecision::Deny,
{
}

} // verus!
