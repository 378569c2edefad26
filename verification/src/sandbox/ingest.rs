//! The source-ingest sandbox: which reads and writes a parser may make, and
//! the audit of every attempt.

use vstd::prelude::*;

use crate::policy::grant::current_time;
use crate::policy::path::contained_in_any;
use crate::policy::types::Timestamp;
use crate::sandbox::policy::{
    denied_error, join_path, join_sandbox_relative, unsafe_relative, unsafe_write_target, SandboxDecision,
    SandboxDenyReason, SandboxError, SandboxOperation, SandboxPolicy, SandboxProfile, SandboxResult,
};
use crate::text::{owned, str_eq};

verus! {

/// A source-ingest run: who asks, under which capability and decision, and
/// the paths of the input blob, the raw store and the isolated temp directory.
#[derive(Debug, Clone, PartialEq, Eq)]
pub struct SourceIngestRequest {
    pub actor_id: String,
    pub workspace_id: String,
    pub capability_id: Option<String>,
    pub policy_decision_id: Option<String>,
    pub input_blob: String,
    pub raw_cas_dir: String,
    pub isolated_temp_dir: String,
}

impl SourceIngestRequest {
    pub fn new(input_blob: String, raw_cas_dir: String, isolated_temp_dir: String) -> (r: Self)
        ensures
            r.actor_id@ == Seq::<char>::empty(),
            r.workspace_id@ == Seq::<char>::empty(),
            r.capability_id is None,
            r.policy_decision_id is None,
            r.input_blob == input_blob,
            r.raw_cas_dir == raw_cas_dir,
            r.isolated_temp_dir == isolated_temp_dir,
    {
        SourceIngestRequest {
            actor_id: String::new(),
            workspace_id: String::new(),
            capability_id: None,
            policy_decision_id: None,
            input_blob,
            raw_cas_dir,
            isolated_temp_dir,
        }
    }

    pub fn with_actor(self, actor_id: String) -> (r: Self)
        ensures
            r == (SourceIngestRequest { actor_id, ..self }),
    {
        SourceIngestRequest { actor_id, ..self }
    }

    pub fn with_workspace(self, workspace_id: String) -> (r: Self)
        ensures
            r == (SourceIngestRequest { workspace_id, ..self }),
    {
        SourceIngestRequest { workspace_id, ..self }
    }

    pub fn with_capability_id(self, capability_id: String) -> (r: Self)
        ensures
            r == (SourceIngestRequest { capability_id: Some(capability_id), ..self }),
    {
        SourceIngestRequest { capability_id: Some(capability_id), ..self }
    }

    pub fn with_policy_decision_id(self, policy_decision_id: String) -> (r: Self)
        ensures
            r == (SourceIngestRequest { policy_decision_id: Some(policy_decision_id), ..self }),
    {
        SourceIngestRequest { policy_decision_id: Some(policy_decision_id), ..self }
    }
}

#[derive(Debug, Clone, PartialEq, Eq)]
pub struct SandboxAuditRecord {
    pub profile: SandboxProfile,
    pub operation: SandboxOperation,
    pub decision: SandboxDecision,
    pub deny_reason: Option<SandboxDenyReason>,
    pub actor_id: String,
    pub workspace_id: String,
    pub capability_id: Option<String>,
    pub policy_decision_id: Option<String>,
    pub path: Option<String>,
    pub network_target: Option<String>,
    pub recorded_at: Timestamp,
}

/// The decision and reason an outcome is audited with: an allowed
/// operation, a denial with its reason, or a failure with none.
pub open spec fn outcome_decision<T>(result: SandboxResult<T>) -> (SandboxDecision, Option<SandboxDenyReason>) {
    match result {
        Ok(_) => (SandboxDecision::Allow, None),
        Err(SandboxError::Denied { reason, .. }) => (SandboxDecision::Deny, Some(reason)),
        Err(_) => (SandboxDecision::Deny, None),
    }
}

/// A record of `operation` for `request` under `profile`, with its outcome.
pub open spec fn audit_of<T>(
    a: SandboxAuditRecord,
    request: SourceIngestRequest,
    profile: SandboxProfile,
    operation: SandboxOperation,
    path: Option<String>,
    network_target: Option<String>,
    result: SandboxResult<T>,
) -> bool {
    &&& a.profile == profile
    &&& a.operation == operation
    &&& (a.decision, a.deny_reason) == outcome_decision(result)
    &&& a.actor_id == request.actor_id
    &&& a.workspace_id == request.workspace_id
    &&& a.capability_id == request.capability_id
    &&& a.policy_decision_id == request.policy_decision_id
    &&& a.path == path
    &&& a.network_target == network_target
}

fn clone_opt(o: &Option<String>) -> (r: Option<String>)
    ensures
        r == *o,
{
    match o {
        Some(s) => Some(s.clone()),
        None => None,
    }
}

impl SandboxAuditRecord {
    /// The record of an operation and its outcome, stamped with the current time.
    pub fn from_result<T>(
        request: &SourceIngestRequest,
        profile: SandboxProfile,
        operation: SandboxOperation,
        path: Option<String>,
        network_target: Option<String>,
        result: &SandboxResult<T>,
    ) -> (r: Self)
        ensures
            audit_of(r, *request, profile, operation, path, network_target, *result),
    {
        let (decision, deny_reason) = match result {
            Ok(_) => (SandboxDecision::Allow, None),
            Err(SandboxError::Denied { reason, .. }) => (SandboxDecision::Deny, Some(*reason)),
            Err(_) => (SandboxDecision::Deny, None),
        };
        SandboxAuditRecord {
            profile,
            operation,
            decision,
            deny_reason,
            actor_id: request.actor_id.clone(),
            workspace_id: request.workspace_id.clone(),
            capability_id: clone_opt(&request.capability_id),
            policy_decision_id: clone_opt(&request.policy_decision_id),
            path,
            network_target,
            recorded_at: current_time(),
        }
    }
}

/// What a parser run in a source-ingest sandbox gave, and the sandbox's audit.
#[derive(Debug)]
pub struct SourceIngestRun<T> {
    pub output: SandboxResult<T>,
    pub audit: Vec<SandboxAuditRecord>,
}

/// How a sandboxed write treats an existing file.
#[derive(Debug, Clone, Copy, PartialEq, Eq, Structural)]
pub enum WriteMode {
    /// Only a new file may be created (the raw store).
    AppendOnly,
    /// The file is created or replaced.
    Replace,
}

/// The sandbox a parser runs in during source ingest. Paths are canonical;
/// every attempted operation is recorded.
#[derive(Debug)]
pub struct SourceIngestContext {
    request: SourceIngestRequest,
    policy: SandboxPolicy,
    input_blob: String,
    raw_cas_dir: String,
    isolated_temp_dir: String,
    audit: Vec<SandboxAuditRecord>,
}

/// Whether a read of `target` (canonically `canonical`) is permitted, and the
/// path to read.
pub open spec fn read_decision(
    policy: SandboxPolicy,
    input_blob: Seq<char>,
    target: Seq<char>,
    canonical: SandboxResult<String>,
    r: SandboxResult<String>,
) -> bool {
    match canonical {
        Err(e) => r == Err::<String, SandboxError>(e),
        Ok(c) => if !contained_in_any(policy.reads(), c@) {
            r is Err && denied_error(SandboxOperation::FileRead, SandboxDenyReason::ReadOutsideAllowedRoots, target, r->Err_0)
        } else if policy.kind() == SandboxProfile::SourceIngest && c@ != input_blob {
            r is Err && denied_error(SandboxOperation::FileRead, SandboxDenyReason::ReadOutsideSourceInput, target, r->Err_0)
        } else {
            r == Ok::<String, SandboxError>(c)
        },
    }
}

/// Whether a write of `target` (canonically `canonical`) in `mode` is
/// permitted, and the path to write. The raw store is written only by the
/// broker, append-only; the input blob is never written.
pub open spec fn write_decision(
    policy: SandboxPolicy,
    input_blob: Seq<char>,
    target: Seq<char>,
    canonical: SandboxResult<String>,
    mode: WriteMode,
    r: SandboxResult<String>,
) -> bool {
    let roots = if policy.kind() == SandboxProfile::SourceIngest && mode == WriteMode::AppendOnly {
        policy.broker_roots()
    } else {
        policy.writes()
    };
    if unsafe_write_target(target) {
        r is Err && denied_error(SandboxOperation::FileWrite, SandboxDenyReason::UnsafeRelativePath, target, r->Err_0)
    } else {
        match canonical {
            Err(e) => r == Err::<String, SandboxError>(e),
            Ok(c) => if !contained_in_any(roots, c@) {
                r is Err && denied_error(SandboxOperation::FileWrite, SandboxDenyReason::WriteOutsideAllowedRoots, target, r->Err_0)
            } else if policy.kind() == SandboxProfile::SourceIngest && c@ == input_blob {
                r is Err && denied_error(SandboxOperation::FileWrite, SandboxDenyReason::SourceInputIsReadOnly, target, r->Err_0)
            } else {
                r == Ok::<String, SandboxError>(c)
            },
        }
    }
}

impl SourceIngestContext {
    pub closed spec fn req(&self) -> SourceIngestRequest {
        self.request
    }

    pub closed spec fn sandbox(&self) -> SandboxPolicy {
        self.policy
    }

    pub closed spec fn input(&self) -> Seq<char> {
        self.input_blob@
    }

    pub closed spec fn raw_root(&self) -> Seq<char> {
        self.raw_cas_dir@
    }

    pub closed spec fn temp_root(&self) -> Seq<char> {
        self.isolated_temp_dir@
    }

    pub closed spec fn records(&self) -> Seq<SandboxAuditRecord> {
        self.audit@
    }

    /// A context for `request` under `policy`; the paths are the canonical
    /// forms of the request's input blob, raw store and temp directory, as
    /// the caller resolved them, and the first failure is returned.
    pub fn new(
        request: SourceIngestRequest,
        policy: SandboxPolicy,
        input_blob: SandboxResult<String>,
        raw_cas_dir: SandboxResult<String>,
        isolated_temp_dir: SandboxResult<String>,
    ) -> (r: SandboxResult<Self>)
        ensures
            input_blob matches Err(e) ==> r == Err::<Self, SandboxError>(e),
            input_blob is Ok ==> (raw_cas_dir matches Err(e) ==> r == Err::<Self, SandboxError>(e)),
            input_blob is Ok && raw_cas_dir is Ok ==> (isolated_temp_dir matches Err(e) ==> r == Err::<Self, SandboxError>(e)),
            input_blob is Ok && raw_cas_dir is Ok && isolated_temp_dir is Ok ==> (r matches Ok(c) && c.req() == request
                && c.sandbox() == policy && c.input() == input_blob->Ok_0@ && c.raw_root() == raw_cas_dir->Ok_0@
                && c.temp_root() == isolated_temp_dir->Ok_0@ && c.records().len() == 0),
    {
        let input_blob = match input_blob {
            Ok(p) => p,
            Err(e) => {
                return Err(e);
            },
        };
        let raw_cas_dir = match raw_cas_dir {
            Ok(p) => p,
            Err(e) => {
                return Err(e);
            },
        };
        let isolated_temp_dir = match isolated_temp_dir {
            Ok(p) => p,
            Err(e) => {
                return Err(e);
            },
        };
        Ok(SourceIngestContext { request, policy, input_blob, raw_cas_dir, isolated_temp_dir, audit: Vec::new() })
    }

    /// The canonical path of the input blob.
    pub fn input_blob(&self) -> (r: &str)
        ensures
            r@ == self.input(),
    {
        self.input_blob.as_str()
    }

    /// Decides a read of `target`, whose canonical form is `canonical`.
    pub fn check_read(&self, target: &str, canonical: SandboxResult<String>) -> (r: SandboxResult<String>)
        ensures
            read_decision(self.sandbox(), self.input(), target@, canonical, r),
    {
        let c = match self.policy.permits_read(target, canonical) {
            Ok(c) => c,
            Err(e) => {
                return Err(e);
            },
        };
        if self.policy.profile() == SandboxProfile::SourceIngest && !str_eq(c.as_str(), self.input_blob.as_str()) {
            return Err(SandboxError::Denied {
                operation: SandboxOperation::FileRead,
                reason: SandboxDenyReason::ReadOutsideSourceInput,
                target: Some(owned(target)),
            });
        }
        Ok(c)
    }

    /// Decides a write of `target`, whose canonical form is `canonical`.
    pub fn check_write(&self, target: &str, canonical: SandboxResult<String>, mode: WriteMode) -> (r: SandboxResult<String>)
        ensures
            write_decision(self.sandbox(), self.input(), target@, canonical, mode, r),
    {
        let permitted = if self.policy.profile() == SandboxProfile::SourceIngest && mode == WriteMode::AppendOnly {
            self.policy.permits_broker_write(target, canonical)
        } else {
            self.policy.permits_write(target, canonical)
        };
        let c = match permitted {
            Ok(c) => c,
            Err(e) => {
                return Err(e);
            },
        };
        if self.policy.profile() == SandboxProfile::SourceIngest && str_eq(c.as_str(), self.input_blob.as_str()) {
            return Err(SandboxError::Denied {
                operation: SandboxOperation::FileWrite,
                reason: SandboxDenyReason::SourceInputIsReadOnly,
                target: Some(owned(target)),
            });
        }
        Ok(c)
    }

    /// The path of a file in the raw store; an unsafe relative path is denied.
    pub fn raw_cas_target(&self, relative_path: &str) -> (r: SandboxResult<String>)
        ensures
            unsafe_relative(relative_path@) ==> r is Err && denied_error(SandboxOperation::FileWrite, SandboxDenyReason::UnsafeRelativePath, relative_path@, r->Err_0),
            !unsafe_relative(relative_path@) ==> (r matches Ok(p) && p@ == join_path(self.raw_root(), relative_path@)),
    {
        join_sandbox_relative(self.raw_cas_dir.as_str(), relative_path)
    }

    /// The path of a file in the temp directory; an unsafe relative path is denied.
    pub fn temp_target(&self, relative_path: &str) -> (r: SandboxResult<String>)
        ensures
            unsafe_relative(relative_path@) ==> r is Err && denied_error(SandboxOperation::FileWrite, SandboxDenyReason::UnsafeRelativePath, relative_path@, r->Err_0),
            !unsafe_relative(relative_path@) ==> (r matches Ok(p) && p@ == join_path(self.temp_root(), relative_path@)),
    {
        join_sandbox_relative(self.isolated_temp_dir.as_str(), relative_path)
    }

    /// Records the outcome of a file operation on `target`.
    pub fn record<T>(&mut self, operation: SandboxOperation, target: Option<String>, result: &SandboxResult<T>)
        ensures
            final(self).req() == old(self).req(),
            final(self).sandbox() == old(self).sandbox(),
            final(self).input() == old(self).input(),
            final(self).raw_root() == old(self).raw_root(),
            final(self).temp_root() == old(self).temp_root(),
            final(self).records().len() == old(self).records().len() + 1,
            final(self).records().drop_last() == old(self).records(),
            audit_of(final(self).records().last(), old(self).req(), old(self).sandbox().kind(), operation, target, None, *result),
    {
        let rec = SandboxAuditRecord::from_result(&self.request, self.policy.profile(), operation, target, None, result);
        self.audit.push(rec);
        assert(self.audit@.drop_last() =~= old(self).audit@);
    }

    /// A network request: permitted only when the policy allows the network,
    /// and recorded either way.
    pub fn network_request(&mut self, target: String) -> (r: SandboxResult<()>)
        ensures
            final(self).req() == old(self).req(),
            final(self).sandbox() == old(self).sandbox(),
            final(self).input() == old(self).input(),
            final(self).raw_root() == old(self).raw_root(),
            final(self).temp_root() == old(self).temp_root(),
            old(self).sandbox().networked() ==> r is Ok,
            !old(self).sandbox().networked() ==> r == Err::<(), SandboxError>(SandboxError::Denied {
                operation: SandboxOperation::NetworkRequest,
                reason: SandboxDenyReason::NetworkDenied,
                target: None,
            }),
            final(self).records().len() == old(self).records().len() + 1,
            final(self).records().drop_last() == old(self).records(),
            audit_of(final(self).records().last(), old(self).req(), old(self).sandbox().kind(),
                SandboxOperation::NetworkRequest, None, Some(target), r),
    {
        let result = if self.policy.network_allowed() {
            Ok(())
        } else {
            Err(SandboxError::Denied {
                operation: SandboxOperation::NetworkRequest,
                reason: SandboxDenyReason::NetworkDenied,
                target: None,
            })
        };
        let rec = SandboxAuditRecord::from_result(
            &self.request,
            self.policy.profile(),
            SandboxOperation::NetworkRequest,
            None,
            Some(target),
            &result,
        );
        self.audit.push(rec);
        assert(self.audit@.drop_last() =~= old(self).audit@);
        result
    }

    /// The records so far.
    pub fn audit(&self) -> (r: &[SandboxAuditRecord])
        ensures
            r@ == self.records(),
    {
        self.audit.as_slice()
    }

    /// The records, ending the run.
    pub fn into_audit(self) -> (r: Vec<SandboxAuditRecord>)
        ensures
            r@ == self.records(),
    {
        self.audit
    }
}

} // verus!
