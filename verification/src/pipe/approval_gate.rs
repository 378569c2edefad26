//! Approval gate: pipeline steps that wait for a human decision.

use vstd::prelude::*;

use crate::keyed::KeyedMap;
use crate::policy::types::ApprovalStatus;
use crate::text::{concat2, concat3, decimal, u64_to_decimal};

verus! {

/// A request for approval of a pipeline step.
pub struct ApprovalRequestInput {
    pub pipeline_id: String,
    pub step_id: String,
    pub actor_id: String,
    pub workspace_id: String,
    pub operation: String,
    pub reason: String,
}

#[derive(Debug, Clone, PartialEq, Eq)]
pub enum ApprovalGateError {
    RequestFailed(String),
    NotFound(String),
    Timeout { approval_id: String, timeout_ms: u64 },
}

pub open spec fn gate_error_text(e: ApprovalGateError) -> Seq<char> {
    match e {
        ApprovalGateError::RequestFailed(m) => "approval request failed: "@ + m@,
        ApprovalGateError::NotFound(id) => "approval request not found: "@ + id@,
        ApprovalGateError::Timeout { approval_id, timeout_ms } => "approval timeout: id="@ + approval_id@ + ", timeout="@
            + decimal(timeout_ms as nat) + "ms"@,
    }
}

impl ApprovalGateError {
    /// The error message.
    pub fn to_string(&self) -> (r: String)
        ensures
            r@ == gate_error_text(*self),
    {
        match self {
            ApprovalGateError::RequestFailed(m) => concat2("approval request failed: ", m.as_str()),
            ApprovalGateError::NotFound(id) => concat2("approval request not found: ", id.as_str()),
            ApprovalGateError::Timeout { approval_id, timeout_ms } => {
                let head = concat3("approval timeout: id=", approval_id.as_str(), ", timeout=");
                concat3(head.as_str(), u64_to_decimal(*timeout_ms).as_str(), "ms")
            },
        }
    }
}

/// Where approval requests are submitted and polled.
pub trait ApprovalGate {
    spec fn ready(&self) -> bool;

    /// Submits a request; the id it is known by.
    fn request_approval(&mut self, request: ApprovalRequestInput) -> (r: Result<String, ApprovalGateError>)
        requires
            old(self).ready(),
        ensures
            final(self).ready(),
    ;

    /// The current status of a request.
    fn poll_approval(&self, approval_id: &str) -> (r: Result<ApprovalStatus, ApprovalGateError>)
        requires
            self.ready(),
    ;

    /// Waits until the request is decided or `timeout_ms` has passed.
    fn wait_for_approval(&mut self, approval_id: &str, timeout_ms: u64) -> (r: Result<ApprovalStatus, ApprovalGateError>)
        requires
            old(self).ready(),
        ensures
            final(self).ready(),
    ;
}

/// What a wait for approval does after a poll, `elapsed_ms` after it began:
/// a decided request ends the wait, a pending one past the timeout is an
/// error, otherwise it polls again (`None`).
pub fn wait_step(approval_id: &str, status: ApprovalStatus, elapsed_ms: u64, timeout_ms: u64) -> (r: Result<
    Option<ApprovalStatus>,
    ApprovalGateError,
>)
    ensures
        status != ApprovalStatus::Pending ==> r == Ok::<Option<ApprovalStatus>, ApprovalGateError>(Some(status)),
        status == ApprovalStatus::Pending && elapsed_ms >= timeout_ms ==> (r matches Err(
            ApprovalGateError::Timeout { approval_id: id, timeout_ms: t },
        ) && id@ == approval_id@ && t == timeout_ms),
        status == ApprovalStatus::Pending && elapsed_ms < timeout_ms ==> r == Ok::<
            Option<ApprovalStatus>,
            ApprovalGateError,
        >(None),
{
    match status {
        ApprovalStatus::Approved => Ok(Some(ApprovalStatus::Approved)),
        ApprovalStatus::Denied => Ok(Some(ApprovalStatus::Denied)),
        ApprovalStatus::Pending => if elapsed_ms >= timeout_ms {
            Err(ApprovalGateError::Timeout { approval_id: crate::text::owned(approval_id), timeout_ms })
        } else {
            Ok(None)
        },
    }
}

/// The id of the request numbered `n` of pipeline `pipeline_id`.
pub open spec fn approval_id_text(pipeline_id: Seq<char>, n: u64) -> Seq<char> {
    "approval-"@ + pipeline_id + "-"@ + decimal(n as nat)
}

/// An approval gate held in memory: requests are numbered from 1.
#[derive(Debug)]
pub struct InMemoryApprovalGate {
    next_id: u64,
    requests: KeyedMap<ApprovalStatus>,
}

impl InMemoryApprovalGate {
    pub closed spec fn next(&self) -> u64 {
        self.next_id
    }

    pub closed spec fn statuses(&self) -> Map<Seq<char>, ApprovalStatus> {
        self.requests@
    }

    pub closed spec fn wf(&self) -> bool {
        self.requests.wf()
    }

    pub fn new() -> (r: Self)
        ensures
            r.wf(),
            r.next() == 1,
            r.statuses() == Map::<Seq<char>, ApprovalStatus>::empty(),
    {
        InMemoryApprovalGate { next_id: 1, requests: KeyedMap::new() }
    }

    fn decide(&mut self, approval_id: &str, status: ApprovalStatus) -> (r: Result<(), ApprovalGateError>)
        requires
            old(self).wf(),
        ensures
            final(self).wf(),
            final(self).next() == old(self).next(),
            old(self).statuses().contains_key(approval_id@) ==> r is Ok && final(self).statuses() == old(
                self,
            ).statuses().insert(approval_id@, status),
            !old(self).statuses().contains_key(approval_id@) ==> final(self).statuses() == old(self).statuses() && (r matches Err(
                ApprovalGateError::NotFound(id),
            ) && id@ == approval_id@),
    {
        if self.requests.contains_key(approval_id) {
            self.requests.insert(crate::text::owned(approval_id), status);
            Ok(())
        } else {
            Err(ApprovalGateError::NotFound(crate::text::owned(approval_id)))
        }
    }

    /// Approves a known request.
    pub fn approve(&mut self, approval_id: &str) -> (r: Result<(), ApprovalGateError>)
        requires
            old(self).wf(),
        ensures
            final(self).wf(),
            final(self).next() == old(self).next(),
            old(self).statuses().contains_key(approval_id@) ==> r is Ok && final(self).statuses() == old(
                self,
            ).statuses().insert(approval_id@, ApprovalStatus::Approved),
            !old(self).statuses().contains_key(approval_id@) ==> final(self).statuses() == old(self).statuses() && (r matches Err(
                ApprovalGateError::NotFound(id),
            ) && id@ == approval_id@),
    {
        self.decide(approval_id, ApprovalStatus::Approved)
    }

    /// Denies a known request.
    pub fn deny(&mut self, approval_id: &str) -> (r: Result<(), ApprovalGateError>)
        requires
            old(self).wf(),
        ensures
            final(self).wf(),
            final(self).next() == old(self).next(),
            old(self).statuses().contains_key(approval_id@) ==> r is Ok && final(self).statuses() == old(
                self,
            ).statuses().insert(approval_id@, ApprovalStatus::Denied),
            !old(self).statuses().contains_key(approval_id@) ==> final(self).statuses() == old(self).statuses() && (r matches Err(
                ApprovalGateError::NotFound(id),
            ) && id@ == approval_id@),
    {
        self.decide(approval_id, ApprovalStatus::Denied)
    }

    /// Submits a request: it is pending under the id `approval-{pipeline}-{n}`,
    /// `n` counting the requests from 1.
    pub fn request(&mut self, request: ApprovalRequestInput) -> (r: Result<String, ApprovalGateError>)
        requires
            old(self).wf(),
        ensures
            final(self).wf(),
            r matches Ok(id) && id@ == approval_id_text(request.pipeline_id@, old(self).next())
                && final(self).statuses() == old(self).statuses().insert(id@, ApprovalStatus::Pending),
            final(self).next() == (if old(self).next() == u64::MAX { 0 } else { (old(self).next() + 1) as u64 }),
    {
        let n = self.next_id;
        self.next_id = if n == u64::MAX { 0 } else { n + 1 };
        let head = concat3("approval-", request.pipeline_id.as_str(), "-");
        let id = concat2(head.as_str(), u64_to_decimal(n).as_str());
        self.requests.insert(id.clone(), ApprovalStatus::Pending);
        Ok(id)
    }

    /// The status of a request.
    pub fn poll(&self, approval_id: &str) -> (r: Result<ApprovalStatus, ApprovalGateError>)
        requires
            self.wf(),
        ensures
            self.statuses().contains_key(approval_id@) ==> r == Ok::<ApprovalStatus, ApprovalGateError>(
                self.statuses()[approval_id@],
            ),
            !self.statuses().contains_key(approval_id@) ==> (r matches Err(ApprovalGateError::NotFound(id)) && id@
                == approval_id@),
    {
        match self.requests.get(approval_id) {
            Some(s) => Ok(*s),
            None => Err(ApprovalGateError::NotFound(crate::text::owned(approval_id))),
        }
    }
}

impl ApprovalGate for InMemoryApprovalGate {
    closed spec fn ready(&self) -> bool {
        self.wf()
    }

    fn request_approval(&mut self, request: ApprovalRequestInput) -> (r: Result<String, ApprovalGateError>)
        ensures
            r matches Ok(id) && id@ == approval_id_text(request.pipeline_id@, old(self).next())
                && final(self).statuses() == old(self).statuses().insert(id@, ApprovalStatus::Pending),
    {
        self.request(request)
    }

    fn poll_approval(&self, approval_id: &str) -> (r: Result<ApprovalStatus, ApprovalGateError>)
        ensures
            self.statuses().contains_key(approval_id@) ==> r == Ok::<ApprovalStatus, ApprovalGateError>(
                self.statuses()[approval_id@],
            ),
            !self.statuses().contains_key(approval_id@) ==> (r matches Err(ApprovalGateError::NotFound(id)) && id@
                == approval_id@),
    {
        self.poll(approval_id)
    }

    /// A pending request cannot change during this call, which holds the
    /// only handle to the store: waiting on it ends with the timeout error.
    /// A decided request gives its status.
    fn wait_for_approval(&mut self, approval_id: &str, timeout_ms: u64) -> (r: Result<ApprovalStatus, ApprovalGateError>)
        ensures
            final(self).statuses() == old(self).statuses(),
            final(self).next() == old(self).next(),
            !old(self).statuses().contains_key(approval_id@) ==> (r matches Err(ApprovalGateError::NotFound(id)) && id@
                == approval_id@),
            old(self).statuses().contains_key(approval_id@) && old(self).statuses()[approval_id@] != ApprovalStatus::Pending
                ==> r == Ok::<ApprovalStatus, ApprovalGateError>(old(self).statuses()[approval_id@]),
            old(self).statuses().contains_key(approval_id@) && old(self).statuses()[approval_id@] == ApprovalStatus::Pending
                ==> (r matches Err(ApprovalGateError::Timeout { approval_id: id, timeout_ms: t }) && id@ == approval_id@ && t
                == timeout_ms),
    {
        let status = self.poll(approval_id)?;
        match wait_step(approval_id, status, timeout_ms, timeout_ms)? {
            Some(s) => Ok(s),
            None => Err(ApprovalGateError::Timeout { approval_id: crate::text::owned(approval_id), timeout_ms }),
        }
    }
}

/// Requests of one pipeline with different numbers get different ids.
pub proof fn law_request_ids_differ(pipeline: Seq<char>, n: u64, m: u64)
    requires
        n != m,
    ensures
        approval_id_text(pipeline, n) != approval_id_text(pipeline, m),
{
    let prefix = "approval-"@ + pipeline + "-"@;
    if approval_id_text(pipeline, n) == approval_id_text(pipeline, m) {
        assert(approval_id_text(pipeline, n).skip(prefix.len() as int) =~= decimal(n as nat));
        assert(approval_id_text(pipeline, m).skip(prefix.len() as int) =~= decimal(m as nat));
        crate::text::lemma_decimal_injective(n as nat, m as nat);
    }
}

} // verus!
