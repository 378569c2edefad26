//! Capability grants and their store.

use vstd::prelude::*;

use crate::hash::{digest_hex, hash_bytes, hash_text, hash_text_spec};
use crate::policy::audit::AuditRecord;
use crate::policy::engine::ApprovalDecision;
use crate::policy::types::{ApprovalStatus, GrantError, Nanos, PolicyError, PolicyResult, Timestamp, FILE_READ_CAPABILITY};
use crate::text::{clone_strings, join_lines, join_with_newlines, owned, str_eq, u64_to_decimal, decimal, views};

verus! {

/// Length and SHA-256 (hex) of a file's contents.
#[derive(Debug, Clone, PartialEq, Eq)]
pub struct FileResourceSnapshot {
    pub len: u64,
    pub sha256: String,
}

#[derive(Debug, Clone, PartialEq, Eq)]
pub struct CapabilityGrant {
    pub capability_id: String,
    pub subject_actor_id: String,
    pub workspace_id: String,
    pub capability: String,
    pub audience: String,
    pub operation: String,
    pub canonical_path: String,
    pub resource: FileResourceSnapshot,
    pub max_bytes: u64,
    pub declared_mime: Option<String>,
    pub not_before: Timestamp,
    pub expires_at: Timestamp,
    pub uses_remaining: u32,
    pub granted_by: String,
    pub approval_id: String,
    pub policy_decision_id: String,
    pub revoked_at: Option<Timestamp>,
}

#[derive(Debug, Clone, PartialEq, Eq)]
pub struct CapabilityGrantHandle {
    pub capability_id: String,
    pub audit: AuditRecord,
}

#[derive(Debug, PartialEq, Eq)]
pub struct GenericCapabilityGrant {
    pub capability_id: String,
    pub subject_actor_id: String,
    pub workspace_id: String,
    pub capability: String,
    pub audience: String,
    pub operation: String,
    pub not_before: Timestamp,
    pub expires_at: Timestamp,
    pub uses_remaining: u32,
    pub granted_by: String,
    pub policy_decision_id: String,
    pub revoked_at: Option<Timestamp>,
}

impl Clone for GenericCapabilityGrant {
    fn clone(&self) -> (r: Self)
        ensures
            r == *self,
    {
        GenericCapabilityGrant {
            capability_id: self.capability_id.clone(),
            subject_actor_id: self.subject_actor_id.clone(),
            workspace_id: self.workspace_id.clone(),
            capability: self.capability.clone(),
            audience: self.audience.clone(),
            operation: self.operation.clone(),
            not_before: self.not_before,
            expires_at: self.expires_at,
            uses_remaining: self.uses_remaining,
            granted_by: self.granted_by.clone(),
            policy_decision_id: self.policy_decision_id.clone(),
            revoked_at: self.revoked_at,
        }
    }
}

#[derive(Debug, Clone, PartialEq, Eq)]
pub struct FileReadGrantInput {
    pub capability_id: String,
    pub subject_actor_id: String,
    pub workspace_id: String,
    pub audience: String,
    pub operation: String,
    pub path: String,
    pub max_bytes: u64,
    pub declared_mime: Option<String>,
    pub not_before: Timestamp,
    pub expires_at: Timestamp,
    pub granted_by: String,
    pub approval: ApprovalDecision,
}

#[derive(Debug, Clone, PartialEq, Eq)]
pub struct UseCapabilityRequest {
    pub capability_id: String,
    pub subject_actor_id: String,
    pub audience: String,
    pub workspace_id: String,
    pub capability: String,
    pub operation: String,
    pub canonical_path: String,
    pub now: Timestamp,
}

#[derive(Debug, Clone, PartialEq, Eq)]
pub struct GenericUseCapabilityRequest {
    pub capability_id: String,
    pub subject_actor_id: String,
    pub audience: String,
    pub workspace_id: String,
    pub capability: String,
    pub operation: String,
    pub now: Timestamp,
}

#[derive(Debug, Clone, Copy, PartialEq, Eq, Structural)]
pub enum CapabilityGrantRejection {
    Unknown,
    ApprovalNotApproved,
    WrongCapability,
    WrongAudience,
    WrongSubject,
    WrongWorkspace,
    WrongOperation,
    ScopeMismatch,
    ResourceChanged,
    ResourceTooLarge,
    ApprovalScopeMismatch,
    NotYetValid,
    Expired,
    Revoked,
    AlreadyUsed,
}

#[derive(Debug, PartialEq, Eq)]
pub struct Provenance {
    pub transaction_id: String,
    pub source_id: String,
    pub citation_ids: Vec<String>,
    pub thread_scope: String,
    pub audit_id: String,
}

#[derive(Debug, PartialEq, Eq)]
pub struct ChannelActionGrant {
    pub grant_id: String,
    pub scope: String,
    pub audience: String,
    pub ttl: Nanos,
    pub uses_remaining: u32,
    pub idempotency_key: String,
    pub allowed_actions: Vec<String>,
    pub provenance: Provenance,
    pub expires_at: Timestamp,
}

#[derive(Debug, Clone, PartialEq, Eq)]
pub struct IssueChannelActionGrantInput {
    pub grant_id: String,
    pub scope: String,
    pub audience: String,
    pub ttl: Nanos,
    pub uses: u32,
    pub idempotency_key: String,
    pub allowed_actions: Vec<String>,
    pub provenance: Provenance,
    pub issued_at: Timestamp,
}

#[derive(Debug, Clone, PartialEq, Eq)]
pub struct ChannelActionGrantConsumption {
    pub grant_id: String,
}

#[derive(Debug, Clone, PartialEq, Eq)]
pub struct CapabilityConsumption {
    pub grant_fingerprint: String,
}

#[derive(Debug, Clone, PartialEq, Eq)]
pub struct CapabilityUseFailure {
    pub rejection: CapabilityGrantRejection,
    pub grant_fingerprint: Option<String>,
}

/// Scopes held by one actor in one workspace.
#[derive(Debug, Clone, PartialEq, Eq)]
pub struct ScopeEntry {
    pub actor_id: String,
    pub workspace_id: String,
    pub scopes: Vec<String>,
}

/// Grants of the three kinds and the actors' memory and source scopes. Each
/// grant id occurs at most once within its kind.
#[derive(Debug, Default)]
pub struct CapabilityStore {
    grants: Vec<CapabilityGrant>,
    generic_grants: Vec<GenericCapabilityGrant>,
    channel_action_grants: Vec<ChannelActionGrant>,
    actor_memory_scopes: Vec<ScopeEntry>,
    actor_source_scopes: Vec<ScopeEntry>,
}

// ---------------------------------------------------------------------------
// Fingerprints.
// ---------------------------------------------------------------------------

pub open spec fn secs(t: Timestamp) -> u64 {
    (t / 1_000_000_000) as u64
}

pub open spec fn generic_fingerprint_parts(g: GenericCapabilityGrant) -> Seq<Seq<char>> {
    seq![
        g.capability_id@,
        g.subject_actor_id@,
        g.workspace_id@,
        g.capability@,
        g.audience@,
        g.operation@,
        decimal(secs(g.not_before) as nat),
        decimal(secs(g.expires_at) as nat),
        g.granted_by@,
    ]
}

/// The fingerprint of a generic grant: the hash of its identifying fields.
pub open spec fn generic_fingerprint(g: GenericCapabilityGrant) -> Seq<char> {
    hash_text_spec(join_lines(generic_fingerprint_parts(g)))
}

pub open spec fn mime_text(m: Option<String>) -> Seq<char> {
    match m {
        Some(s) => s@,
        None => Seq::<char>::empty(),
    }
}

pub open spec fn file_fingerprint_parts(g: CapabilityGrant) -> Seq<Seq<char>> {
    seq![
        g.capability_id@,
        g.subject_actor_id@,
        g.workspace_id@,
        g.capability@,
        g.audience@,
        g.operation@,
        g.canonical_path@,
        decimal(g.resource.len as nat),
        g.resource.sha256@,
        mime_text(g.declared_mime),
        g.granted_by@,
        g.approval_id@,
        g.policy_decision_id@,
    ]
}

/// The fingerprint of a file read grant: the hash of its identifying fields.
pub open spec fn file_fingerprint(g: CapabilityGrant) -> Seq<char> {
    hash_text_spec(join_lines(file_fingerprint_parts(g)))
}

fn mime_or_empty(m: &Option<String>) -> (r: String)
    ensures
        r@ == mime_text(*m),
{
    match m {
        Some(s) => s.clone(),
        None => String::new(),
    }
}

/// The fingerprint of a generic grant.
pub fn generic_grant_fingerprint(g: &GenericCapabilityGrant) -> (r: String)
    ensures
        r@ == generic_fingerprint(*g),
{
    let mut parts: Vec<String> = Vec::new();
    parts.push(g.capability_id.clone());
    parts.push(g.subject_actor_id.clone());
    parts.push(g.workspace_id.clone());
    parts.push(g.capability.clone());
    parts.push(g.audience.clone());
    parts.push(g.operation.clone());
    parts.push(u64_to_decimal(g.not_before / 1_000_000_000));
    parts.push(u64_to_decimal(g.expires_at / 1_000_000_000));
    parts.push(g.granted_by.clone());
    assert(views(parts@) =~= generic_fingerprint_parts(*g));
    hash_text(join_with_newlines(&parts).as_str())
}

impl CapabilityGrant {
    /// The fingerprint of this grant.
    pub fn fingerprint(&self) -> (r: String)
        ensures
            r@ == file_fingerprint(*self),
    {
        let mut parts: Vec<String> = Vec::new();
        parts.push(self.capability_id.clone());
        parts.push(self.subject_actor_id.clone());
        parts.push(self.workspace_id.clone());
        parts.push(self.capability.clone());
        parts.push(self.audience.clone());
        parts.push(self.operation.clone());
        parts.push(self.canonical_path.clone());
        parts.push(u64_to_decimal(self.resource.len));
        parts.push(self.resource.sha256.clone());
        parts.push(mime_or_empty(&self.declared_mime));
        parts.push(self.granted_by.clone());
        parts.push(self.approval_id.clone());
        parts.push(self.policy_decision_id.clone());
        assert(views(parts@) =~= file_fingerprint_parts(*self));
        hash_text(join_with_newlines(&parts).as_str())
    }
}

// ---------------------------------------------------------------------------
// Generic grants.
// ---------------------------------------------------------------------------

/// Index of the generic grant with id `id`.
pub open spec fn find_generic(s: Seq<GenericCapabilityGrant>, id: Seq<char>) -> Option<int>
    decreases s.len(),
{
    if s.len() == 0 {
        None
    } else if s.last().capability_id@ == id {
        Some(s.len() - 1)
    } else {
        find_generic(s.drop_last(), id)
    }
}

proof fn lemma_find_generic(s: Seq<GenericCapabilityGrant>, id: Seq<char>)
    ensures
        find_generic(s, id) matches Some(i) ==> 0 <= i < s.len() && s[i].capability_id@ == id,
        find_generic(s, id) is None <==> (forall|j: int| 0 <= j < s.len() ==> (#[trigger] s[j]).capability_id@ != id),
    decreases s.len(),
{
    if s.len() > 0 {
        lemma_find_generic(s.drop_last(), id);
        if s.last().capability_id@ != id {
            assert forall|j: int| 0 <= j < s.len() - 1 implies s.drop_last()[j] == s[j] by {}
        }
    }
}

/// Index of the file read grant with id `id`.
pub open spec fn find_file(s: Seq<CapabilityGrant>, id: Seq<char>) -> Option<int>
    decreases s.len(),
{
    if s.len() == 0 {
        None
    } else if s.last().capability_id@ == id {
        Some(s.len() - 1)
    } else {
        find_file(s.drop_last(), id)
    }
}

proof fn lemma_find_file(s: Seq<CapabilityGrant>, id: Seq<char>)
    ensures
        find_file(s, id) matches Some(i) ==> 0 <= i < s.len() && s[i].capability_id@ == id,
        find_file(s, id) is None <==> (forall|j: int| 0 <= j < s.len() ==> (#[trigger] s[j]).capability_id@ != id),
    decreases s.len(),
{
    if s.len() > 0 {
        lemma_find_file(s.drop_last(), id);
        if s.last().capability_id@ != id {
            assert forall|j: int| 0 <= j < s.len() - 1 implies s.drop_last()[j] == s[j] by {}
        }
    }
}

/// Why a generic grant cannot serve a request, checked in this order.
pub open spec fn generic_rejection(g: GenericCapabilityGrant, req: GenericUseCapabilityRequest) -> Option<CapabilityGrantRejection> {
    if g.capability@ != req.capability@ {
        Some(CapabilityGrantRejection::WrongCapability)
    } else if g.audience@ != req.audience@ {
        Some(CapabilityGrantRejection::WrongAudience)
    } else if g.subject_actor_id@ != req.subject_actor_id@ {
        Some(CapabilityGrantRejection::WrongSubject)
    } else if g.workspace_id@ != req.workspace_id@ {
        Some(CapabilityGrantRejection::WrongWorkspace)
    } else if g.operation@ != req.operation@ {
        Some(CapabilityGrantRejection::WrongOperation)
    } else if req.now < g.not_before {
        Some(CapabilityGrantRejection::NotYetValid)
    } else if req.now >= g.expires_at {
        Some(CapabilityGrantRejection::Expired)
    } else if g.revoked_at is Some {
        Some(CapabilityGrantRejection::Revoked)
    } else if g.uses_remaining == 0 {
        Some(CapabilityGrantRejection::AlreadyUsed)
    } else {
        None
    }
}

/// A generic grant valid for the given actor, workspace, capability, operation and audience at `now`.
pub open spec fn generic_valid_for(
    g: GenericCapabilityGrant,
    actor: Seq<char>,
    workspace: Seq<char>,
    capability: Seq<char>,
    operation: Seq<char>,
    audience: Seq<char>,
    now: Timestamp,
) -> bool {
    &&& g.subject_actor_id@ == actor
    &&& g.workspace_id@ == workspace
    &&& g.capability@ == capability
    &&& g.operation@ == operation
    &&& g.audience@ == audience
    &&& g.revoked_at is None
    &&& g.uses_remaining > 0
    &&& now >= g.not_before
    &&& now < g.expires_at
}

pub open spec fn with_uses(g: GenericCapabilityGrant, uses: u32) -> GenericCapabilityGrant {
    GenericCapabilityGrant { uses_remaining: uses, ..g }
}

/// The policy decision id a generic grant issued at `now` records.
pub open spec fn generic_issue_decision_id(
    capability_id: Seq<char>,
    subject_actor_id: Seq<char>,
    workspace_id: Seq<char>,
    capability: Seq<char>,
    operation: Seq<char>,
    now: Timestamp,
) -> Seq<char> {
    hash_text_spec(join_lines(seq!["generic"@, capability_id, subject_actor_id, workspace_id, capability, operation, decimal(now as nat)]))
}

/// A year, in nanoseconds: the default lifetime of a generic grant.
pub open spec fn default_grant_lifetime() -> u64 {
    31_536_000_000_000_000
}

// ---------------------------------------------------------------------------
// Channel action grants and scopes.
// ---------------------------------------------------------------------------

pub open spec fn find_channel(s: Seq<ChannelActionGrant>, id: Seq<char>) -> Option<int>
    decreases s.len(),
{
    if s.len() == 0 {
        None
    } else if s.last().grant_id@ == id {
        Some(s.len() - 1)
    } else {
        find_channel(s.drop_last(), id)
    }
}

proof fn lemma_find_channel(s: Seq<ChannelActionGrant>, id: Seq<char>)
    ensures
        find_channel(s, id) matches Some(i) ==> 0 <= i < s.len() && s[i].grant_id@ == id,
        find_channel(s, id) is None <==> (forall|j: int| 0 <= j < s.len() ==> (#[trigger] s[j]).grant_id@ != id),
    decreases s.len(),
{
    if s.len() > 0 {
        lemma_find_channel(s.drop_last(), id);
        if s.last().grant_id@ != id {
            assert forall|j: int| 0 <= j < s.len() - 1 implies s.drop_last()[j] == s[j] by {}
        }
    }
}

pub open spec fn find_scope(s: Seq<ScopeEntry>, actor: Seq<char>, workspace: Seq<char>) -> Option<int>
    decreases s.len(),
{
    if s.len() == 0 {
        None
    } else if s.last().actor_id@ == actor && s.last().workspace_id@ == workspace {
        Some(s.len() - 1)
    } else {
        find_scope(s.drop_last(), actor, workspace)
    }
}

proof fn lemma_find_scope(s: Seq<ScopeEntry>, actor: Seq<char>, workspace: Seq<char>)
    ensures
        find_scope(s, actor, workspace) matches Some(i) ==> 0 <= i < s.len() && s[i].actor_id@ == actor
            && s[i].workspace_id@ == workspace,
        find_scope(s, actor, workspace) is None <==> (forall|j: int| 0 <= j < s.len() ==> !((#[trigger] s[j]).actor_id@ == actor
            && s[j].workspace_id@ == workspace)),
    decreases s.len(),
{
    if s.len() > 0 {
        lemma_find_scope(s.drop_last(), actor, workspace);
        if !(s.last().actor_id@ == actor && s.last().workspace_id@ == workspace) {
            assert forall|j: int| 0 <= j < s.len() - 1 implies s.drop_last()[j] == s[j] by {}
        }
    }
}

/// The scopes recorded for an actor in a workspace (none when nothing was recorded).
pub open spec fn scopes_of(s: Seq<ScopeEntry>, actor: Seq<char>, workspace: Seq<char>) -> Seq<String> {
    match find_scope(s, actor, workspace) {
        Some(i) => s[i].scopes@,
        None => Seq::<String>::empty(),
    }
}

pub open spec fn contains_text(s: Seq<String>, t: Seq<char>) -> bool {
    exists|i: int| 0 <= i < s.len() && (#[trigger] s[i])@ == t
}

// ---------------------------------------------------------------------------
// The store.
// ---------------------------------------------------------------------------

/// The current wall-clock time (`SystemTime::now`) in nanoseconds since the
/// Unix epoch; a clock set before the epoch reads as 0. Nothing is promised of
/// the value.
#[verifier::external_body]
pub(crate) fn current_time() -> (r: Timestamp) {
    match std::time::SystemTime::now().duration_since(std::time::UNIX_EPOCH) {
        Ok(d) => d.as_nanos() as u64,
        Err(_) => 0,
    }
}

pub open spec fn unique_generic(s: Seq<GenericCapabilityGrant>) -> bool {
    forall|i: int, j: int| 0 <= i < j < s.len() ==> (#[trigger] s[i]).capability_id@ != (#[trigger] s[j]).capability_id@
}

pub open spec fn unique_file(s: Seq<CapabilityGrant>) -> bool {
    forall|i: int, j: int| 0 <= i < j < s.len() ==> (#[trigger] s[i]).capability_id@ != (#[trigger] s[j]).capability_id@
}

pub open spec fn unique_channel(s: Seq<ChannelActionGrant>) -> bool {
    forall|i: int, j: int| 0 <= i < j < s.len() ==> (#[trigger] s[i]).grant_id@ != (#[trigger] s[j]).grant_id@
}

fn find_generic_exec(s: &Vec<GenericCapabilityGrant>, id: &str) -> (r: Option<usize>)
    ensures
        r matches Some(i) ==> find_generic(s@, id@) == Some(i as int) && i < s@.len(),
        r is None ==> find_generic(s@, id@) is None,
{
    proof { lemma_find_generic(s@, id@); }
    let mut i: usize = s.len();
    assert(s@.take(i as int) =~= s@);
    while i > 0
        invariant
            i <= s@.len(),
            find_generic(s@, id@) == find_generic(s@.take(i as int), id@),
        decreases i,
    {
        assert(s@.take(i as int).drop_last() =~= s@.take(i - 1));
        if str_eq(s[i - 1].capability_id.as_str(), id) {
            return Some(i - 1);
        }
        i = i - 1;
    }
    None
}

fn find_file_exec(s: &Vec<CapabilityGrant>, id: &str) -> (r: Option<usize>)
    ensures
        r matches Some(i) ==> find_file(s@, id@) == Some(i as int) && i < s@.len(),
        r is None ==> find_file(s@, id@) is None,
{
    proof { lemma_find_file(s@, id@); }
    let mut i: usize = s.len();
    assert(s@.take(i as int) =~= s@);
    while i > 0
        invariant
            i <= s@.len(),
            find_file(s@, id@) == find_file(s@.take(i as int), id@),
        decreases i,
    {
        assert(s@.take(i as int).drop_last() =~= s@.take(i - 1));
        if str_eq(s[i - 1].capability_id.as_str(), id) {
            return Some(i - 1);
        }
        i = i - 1;
    }
    None
}

fn find_channel_exec(s: &Vec<ChannelActionGrant>, id: &str) -> (r: Option<usize>)
    ensures
        r matches Some(i) ==> find_channel(s@, id@) == Some(i as int) && i < s@.len(),
        r is None ==> find_channel(s@, id@) is None,
{
    proof { lemma_find_channel(s@, id@); }
    let mut i: usize = s.len();
    assert(s@.take(i as int) =~= s@);
    while i > 0
        invariant
            i <= s@.len(),
            find_channel(s@, id@) == find_channel(s@.take(i as int), id@),
        decreases i,
    {
        assert(s@.take(i as int).drop_last() =~= s@.take(i - 1));
        if str_eq(s[i - 1].grant_id.as_str(), id) {
            return Some(i - 1);
        }
        i = i - 1;
    }
    None
}

fn find_scope_exec(s: &Vec<ScopeEntry>, actor: &str, workspace: &str) -> (r: Option<usize>)
    ensures
        r matches Some(i) ==> find_scope(s@, actor@, workspace@) == Some(i as int) && i < s@.len(),
        r is None ==> find_scope(s@, actor@, workspace@) is None,
{
    proof { lemma_find_scope(s@, actor@, workspace@); }
    let mut i: usize = s.len();
    assert(s@.take(i as int) =~= s@);
    while i > 0
        invariant
            i <= s@.len(),
            find_scope(s@, actor@, workspace@) == find_scope(s@.take(i as int), actor@, workspace@),
        decreases i,
    {
        assert(s@.take(i as int).drop_last() =~= s@.take(i - 1));
        if str_eq(s[i - 1].actor_id.as_str(), actor) && str_eq(s[i - 1].workspace_id.as_str(), workspace) {
            return Some(i - 1);
        }
        i = i - 1;
    }
    None
}

/// Whether one of the strings is `t`.
pub fn contains_text_pub(s: &Vec<String>, t: &str) -> (r: bool)
    ensures
        r == contains_text(s@, t@),
{
    contains_text_exec(s, t)
}

fn contains_text_exec(s: &Vec<String>, t: &str) -> (r: bool)
    ensures
        r == contains_text(s@, t@),
{
    let mut i: usize = 0;
    while i < s.len()
        invariant
            i <= s@.len(),
            forall|j: int| 0 <= j < i ==> (#[trigger] s@[j])@ != t@,
        decreases s@.len() - i,
    {
        if str_eq(s[i].as_str(), t) {
            return true;
        }
        i = i + 1;
    }
    false
}

impl CapabilityStore {
    pub closed spec fn file_grants(&self) -> Seq<CapabilityGrant> {
        self.grants@
    }

    pub closed spec fn generic(&self) -> Seq<GenericCapabilityGrant> {
        self.generic_grants@
    }

    pub closed spec fn channel(&self) -> Seq<ChannelActionGrant> {
        self.channel_action_grants@
    }

    pub closed spec fn memory(&self) -> Seq<ScopeEntry> {
        self.actor_memory_scopes@
    }

    pub closed spec fn source(&self) -> Seq<ScopeEntry> {
        self.actor_source_scopes@
    }

    /// No grant id twice within a kind.
    pub open spec fn wf(&self) -> bool {
        unique_generic(self.generic()) && unique_file(self.file_grants()) && unique_channel(self.channel())
    }

    pub fn new() -> (r: Self)
        ensures
            r.wf(),
            r.file_grants().len() == 0,
            r.generic().len() == 0,
            r.channel().len() == 0,
            r.memory().len() == 0,
            r.source().len() == 0,
    {
        CapabilityStore {
            grants: Vec::new(),
            generic_grants: Vec::new(),
            channel_action_grants: Vec::new(),
            actor_memory_scopes: Vec::new(),
            actor_source_scopes: Vec::new(),
        }
    }

    /// Issues a generic capability grant at the current time (see `issue_capability_grant_at`).
    #[allow(clippy::too_many_arguments)]
    pub fn issue_capability_grant(
        &mut self,
        capability_id: String,
        subject_actor_id: String,
        workspace_id: String,
        capability: String,
        audience: String,
        operation: String,
        not_before: Option<Timestamp>,
        expires_at: Option<Timestamp>,
        uses_remaining: u32,
        granted_by: String,
    ) -> (r: PolicyResult<Result<CapabilityGrantHandle, CapabilityGrantRejection>>)
        requires
            old(self).wf(),
        ensures
            final(self).wf(),
            exists|now: Timestamp| issue_generic_post(*old(self), *final(self), now, capability_id,
                subject_actor_id, workspace_id, capability, audience, operation, not_before,
                expires_at, uses_remaining, granted_by, r),
    {
        let now = current_time();
        self.issue_capability_grant_at(now, capability_id, subject_actor_id, workspace_id, capability,
            audience, operation, not_before, expires_at, uses_remaining, granted_by)
    }

    /// Issues a generic capability grant at `now`: it is valid from `not_before`
    /// (default `now`) until `expires_at` (default a year after `now`), for
    /// `uses_remaining` uses. An id that is already issued is an error and
    /// changes nothing.
    #[allow(clippy::too_many_arguments)]
    pub fn issue_capability_grant_at(
        &mut self,
        now: Timestamp,
        capability_id: String,
        subject_actor_id: String,
        workspace_id: String,
        capability: String,
        audience: String,
        operation: String,
        not_before: Option<Timestamp>,
        expires_at: Option<Timestamp>,
        uses_remaining: u32,
        granted_by: String,
    ) -> (r: PolicyResult<Result<CapabilityGrantHandle, CapabilityGrantRejection>>)
        requires
            old(self).wf(),
        ensures
            final(self).wf(),
            issue_generic_post(*old(self), *final(self), now, capability_id, subject_actor_id,
                workspace_id, capability, audience, operation, not_before, expires_at, uses_remaining,
                granted_by, r),
    {
        let nb = match not_before {
            Some(t) => t,
            None => now,
        };
        let exp = match expires_at {
            Some(t) => t,
            None => if now > u64::MAX - 31_536_000_000_000_000 { u64::MAX } else { now + 31_536_000_000_000_000 },
        };
        let mut parts: Vec<String> = Vec::new();
        parts.push(owned("generic"));
        parts.push(capability_id.clone());
        parts.push(subject_actor_id.clone());
        parts.push(workspace_id.clone());
        parts.push(capability.clone());
        parts.push(operation.clone());
        parts.push(u64_to_decimal(now));
        proof { reveal_strlit("generic"); }
        assert(views(parts@) =~= seq!["generic"@, capability_id@, subject_actor_id@, workspace_id@, capability@, operation@, decimal(now as nat)]);
        let policy_decision_id = hash_text(join_with_newlines(&parts).as_str());
        let grant = GenericCapabilityGrant {
            capability_id: capability_id.clone(),
            subject_actor_id,
            workspace_id,
            capability,
            audience,
            operation,
            not_before: nb,
            expires_at: exp,
            uses_remaining,
            granted_by,
            policy_decision_id,
            revoked_at: None,
        };
        let audit = AuditRecord::generic_grant_issued(&grant);
        match find_generic_exec(&self.generic_grants, grant.capability_id.as_str()) {
            Some(_) => {
                return Err(PolicyError::DuplicateCapabilityId(grant.capability_id.clone()));
            },
            None => {},
        }
        proof { lemma_find_generic(self.generic_grants@, grant.capability_id@); }
        self.generic_grants.push(grant);
        assert(self.generic_grants@.drop_last() =~= old(self).generic_grants@);
        Ok(Ok(CapabilityGrantHandle { capability_id, audit }))
    }

    /// Consumes one use of a generic grant that serves the request; a grant that
    /// is unknown or cannot serve it is reported and left unchanged.
    pub fn consume_generic_grant(&mut self, request: &GenericUseCapabilityRequest) -> (r: PolicyResult<Result<CapabilityConsumption, CapabilityUseFailure>>)
        requires
            old(self).wf(),
        ensures
            final(self).wf(),
            consume_generic_post(*old(self), *final(self), *request, r),
    {
        let i = match find_generic_exec(&self.generic_grants, request.capability_id.as_str()) {
            Some(i) => i,
            None => {
                return Ok(Err(CapabilityUseFailure {
                    rejection: CapabilityGrantRejection::Unknown,
                    grant_fingerprint: None,
                }));
            },
        };
        proof { lemma_find_generic(self.generic_grants@, request.capability_id@); }
        let g = &self.generic_grants[i];
        let fp = generic_grant_fingerprint(g);
        let rejection = if !str_eq(g.capability.as_str(), request.capability.as_str()) {
            Some(CapabilityGrantRejection::WrongCapability)
        } else if !str_eq(g.audience.as_str(), request.audience.as_str()) {
            Some(CapabilityGrantRejection::WrongAudience)
        } else if !str_eq(g.subject_actor_id.as_str(), request.subject_actor_id.as_str()) {
            Some(CapabilityGrantRejection::WrongSubject)
        } else if !str_eq(g.workspace_id.as_str(), request.workspace_id.as_str()) {
            Some(CapabilityGrantRejection::WrongWorkspace)
        } else if !str_eq(g.operation.as_str(), request.operation.as_str()) {
            Some(CapabilityGrantRejection::WrongOperation)
        } else if request.now < g.not_before {
            Some(CapabilityGrantRejection::NotYetValid)
        } else if request.now >= g.expires_at {
            Some(CapabilityGrantRejection::Expired)
        } else if g.revoked_at.is_some() {
            Some(CapabilityGrantRejection::Revoked)
        } else if g.uses_remaining == 0 {
            Some(CapabilityGrantRejection::AlreadyUsed)
        } else {
            None
        };
        match rejection {
            Some(rejection) => Ok(Err(CapabilityUseFailure { rejection, grant_fingerprint: Some(fp) })),
            None => {
                let mut updated = self.generic_grants[i].clone();
                updated.uses_remaining = updated.uses_remaining - 1;
                self.generic_grants.set(i, updated);
                assert forall|a: int, b: int| 0 <= a < b < self.generic_grants@.len() implies
                    (#[trigger] self.generic_grants@[a]).capability_id@ != (#[trigger] self.generic_grants@[b]).capability_id@ by {
                    assert(old(self).generic_grants@[a].capability_id@ != old(self).generic_grants@[b].capability_id@);
                }
                Ok(Ok(CapabilityConsumption { grant_fingerprint: fp }))
            },
        }
    }

    /// Uses left on a generic grant, if it exists.
    pub fn generic_uses_remaining(&self, capability_id: &str) -> (r: PolicyResult<Option<u32>>)
        ensures
            r == Ok::<Option<u32>, PolicyError>(match find_generic(self.generic(), capability_id@) {
                Some(i) => Some(self.generic()[i].uses_remaining),
                None => None,
            }),
    {
        match find_generic_exec(&self.generic_grants, capability_id) {
            Some(i) => Ok(Some(self.generic_grants[i].uses_remaining)),
            None => Ok(None),
        }
    }

    /// Whether some generic grant serves the actor, workspace, capability, operation and audience at `now`.
    #[allow(clippy::too_many_arguments)]
    pub fn has_valid_generic_grant(
        &self,
        subject_actor_id: &str,
        workspace_id: &str,
        capability: &str,
        operation: &str,
        audience: &str,
        now: Timestamp,
    ) -> (r: PolicyResult<bool>)
        ensures
            r == Ok::<bool, PolicyError>(exists|i: int| 0 <= i < self.generic().len() && generic_valid_for(
                #[trigger] self.generic()[i], subject_actor_id@, workspace_id@, capability@, operation@, audience@, now)),
    {
        let mut i: usize = 0;
        while i < self.generic_grants.len()
            invariant
                i <= self.generic_grants@.len(),
                forall|j: int| 0 <= j < i ==> !generic_valid_for(#[trigger] self.generic_grants@[j], subject_actor_id@,
                    workspace_id@, capability@, operation@, audience@, now),
            decreases self.generic_grants@.len() - i,
        {
            let g = &self.generic_grants[i];
            if str_eq(g.subject_actor_id.as_str(), subject_actor_id) && str_eq(g.workspace_id.as_str(), workspace_id)
                && str_eq(g.capability.as_str(), capability) && str_eq(g.operation.as_str(), operation)
                && str_eq(g.audience.as_str(), audience) && g.revoked_at.is_none() && g.uses_remaining > 0
                && now >= g.not_before && now < g.expires_at {
                assert(generic_valid_for(self.generic()[i as int], subject_actor_id@, workspace_id@, capability@,
                    operation@, audience@, now));
                return Ok(true);
            }
            i = i + 1;
        }
        Ok(false)
    }
}

pub open spec fn default_expiry(now: Timestamp) -> Timestamp {
    if now > u64::MAX - default_grant_lifetime() { u64::MAX } else { (now + default_grant_lifetime()) as u64 }
}

/// The other kinds of grants and the scopes are as they were.
pub open spec fn same_except_generic(a: CapabilityStore, b: CapabilityStore) -> bool {
    &&& a.file_grants() == b.file_grants()
    &&& a.channel() == b.channel()
    &&& a.memory() == b.memory()
    &&& a.source() == b.source()
}

pub open spec fn same_except_file(a: CapabilityStore, b: CapabilityStore) -> bool {
    &&& a.generic() == b.generic()
    &&& a.channel() == b.channel()
    &&& a.memory() == b.memory()
    &&& a.source() == b.source()
}

pub open spec fn same_except_channel(a: CapabilityStore, b: CapabilityStore) -> bool {
    &&& a.generic() == b.generic()
    &&& a.file_grants() == b.file_grants()
    &&& a.memory() == b.memory()
    &&& a.source() == b.source()
}

/// The audit record of an issued generic grant.
pub open spec fn generic_issued_audit(a: AuditRecord, g: GenericCapabilityGrant) -> bool {
    &&& a.policy_decision_id == g.policy_decision_id
    &&& a.action == crate::policy::audit::AuditAction::GrantIssued
    &&& a.occurred_at == g.not_before
    &&& a.actor_id == g.subject_actor_id
    &&& a.workspace_id == g.workspace_id
    &&& a.audience == g.audience
    &&& a.operation == g.operation
    &&& a.canonical_path@ == Seq::<char>::empty()
    &&& a.capability_id == Some(g.capability_id)
    &&& (a.grant_fingerprint matches Some(f) && f@ == generic_fingerprint(g))
    &&& a.decision == crate::policy::types::PolicyDecision::Allow
    &&& a.reason == crate::policy::types::PolicyReason::CapabilityGrant
}

/// What issuing a generic grant at `now` does.
#[allow(clippy::too_many_arguments)]
pub open spec fn issue_generic_post(
    old: CapabilityStore,
    new: CapabilityStore,
    now: Timestamp,
    capability_id: String,
    subject_actor_id: String,
    workspace_id: String,
    capability: String,
    audience: String,
    operation: String,
    not_before: Option<Timestamp>,
    expires_at: Option<Timestamp>,
    uses_remaining: u32,
    granted_by: String,
    r: PolicyResult<Result<CapabilityGrantHandle, CapabilityGrantRejection>>,
) -> bool {
    if find_generic(old.generic(), capability_id@) is Some {
        &&& r == Err::<Result<CapabilityGrantHandle, CapabilityGrantRejection>, PolicyError>(PolicyError::DuplicateCapabilityId(capability_id))
        &&& new.generic() == old.generic()
        &&& same_except_generic(old, new)
    } else {
        &&& new.generic().len() == old.generic().len() + 1
        &&& new.generic().drop_last() == old.generic()
        &&& same_except_generic(old, new)
        &&& {
            let g = new.generic().last();
            &&& g.capability_id == capability_id
            &&& g.subject_actor_id == subject_actor_id
            &&& g.workspace_id == workspace_id
            &&& g.capability == capability
            &&& g.audience == audience
            &&& g.operation == operation
            &&& g.not_before == (match not_before { Some(t) => t, None => now })
            &&& g.expires_at == (match expires_at { Some(t) => t, None => default_expiry(now) })
            &&& g.uses_remaining == uses_remaining
            &&& g.granted_by == granted_by
            &&& g.policy_decision_id@ == generic_issue_decision_id(capability_id@, subject_actor_id@,
                workspace_id@, capability@, operation@, now)
            &&& g.revoked_at is None
            &&& (r matches Ok(Ok(h)) && h.capability_id == capability_id && generic_issued_audit(h.audit, g))
        }
    }
}

/// What consuming a generic grant does.
pub open spec fn consume_generic_post(
    old: CapabilityStore,
    new: CapabilityStore,
    request: GenericUseCapabilityRequest,
    r: PolicyResult<Result<CapabilityConsumption, CapabilityUseFailure>>,
) -> bool {
    &&& same_except_generic(old, new)
    &&& match find_generic(old.generic(), request.capability_id@) {
        None => {
            &&& new.generic() == old.generic()
            &&& r == Ok::<Result<CapabilityConsumption, CapabilityUseFailure>, PolicyError>(Err(
                CapabilityUseFailure { rejection: CapabilityGrantRejection::Unknown, grant_fingerprint: None }))
        },
        Some(i) => {
            let g = old.generic()[i];
            match generic_rejection(g, request) {
                Some(rejection) => {
                    &&& new.generic() == old.generic()
                    &&& (r matches Ok(Err(f)) && f.rejection == rejection
                        && (f.grant_fingerprint matches Some(fp) && fp@ == generic_fingerprint(g)))
                },
                None => {
                    &&& new.generic() == old.generic().update(i, with_uses(g, (g.uses_remaining - 1) as u32))
                    &&& (r matches Ok(Ok(c)) && c.grant_fingerprint@ == generic_fingerprint(g))
                },
            }
        },
    }
}


// ---------------------------------------------------------------------------
// File read grants.
// ---------------------------------------------------------------------------

/// The snapshot of a file's contents, or `None` when they exceed `max_bytes`.
/// `contents` are the file's bytes (at least its first `max_bytes + 1`).
pub fn snapshot_file(contents: &[u8], max_bytes: u64) -> (r: Option<FileResourceSnapshot>)
    ensures
        r is None <==> contents@.len() > max_bytes,
        r matches Some(snap) ==> snap.len == contents@.len() && snap.sha256@ == digest_hex(contents@),
{
    if contents.len() as u64 > max_bytes {
        return None;
    }
    Some(FileResourceSnapshot { len: contents.len() as u64, sha256: hash_bytes(contents) })
}

/// What an approval of a file read grant is bound to.
pub struct FileReadGrantScope<'a> {
    pub subject_actor_id: &'a str,
    pub workspace_id: &'a str,
    pub audience: &'a str,
    pub operation: &'a str,
    pub canonical_path: &'a str,
    pub max_bytes: u64,
    pub declared_mime: Option<&'a str>,
    pub resource: &'a FileResourceSnapshot,
}

pub open spec fn opt_str_text(m: Option<&str>) -> Seq<char> {
    match m {
        Some(s) => s@,
        None => Seq::<char>::empty(),
    }
}

/// The scope hash an approval must carry for a file read grant.
pub open spec fn file_scope_hash(
    subject_actor_id: Seq<char>,
    workspace_id: Seq<char>,
    audience: Seq<char>,
    operation: Seq<char>,
    canonical_path: Seq<char>,
    max_bytes: u64,
    mime: Seq<char>,
    len: u64,
    sha256: Seq<char>,
) -> Seq<char> {
    hash_text_spec(join_lines(seq![
        subject_actor_id,
        workspace_id,
        audience,
        operation,
        canonical_path,
        decimal(max_bytes as nat),
        mime,
        decimal(len as nat),
        sha256,
    ]))
}

/// The scope hash of a file read grant scope.
pub fn file_read_grant_scope_hash(scope: &FileReadGrantScope) -> (r: String)
    ensures
        r@ == file_scope_hash(scope.subject_actor_id@, scope.workspace_id@, scope.audience@,
            scope.operation@, scope.canonical_path@, scope.max_bytes, opt_str_text(scope.declared_mime),
            scope.resource.len, scope.resource.sha256@),
{
    let mut parts: Vec<String> = Vec::new();
    parts.push(owned(scope.subject_actor_id));
    parts.push(owned(scope.workspace_id));
    parts.push(owned(scope.audience));
    parts.push(owned(scope.operation));
    parts.push(owned(scope.canonical_path));
    parts.push(u64_to_decimal(scope.max_bytes));
    parts.push(match scope.declared_mime {
        Some(m) => owned(m),
        None => String::new(),
    });
    parts.push(u64_to_decimal(scope.resource.len));
    parts.push(scope.resource.sha256.clone());
    assert(views(parts@) =~= seq![
        scope.subject_actor_id@,
        scope.workspace_id@,
        scope.audience@,
        scope.operation@,
        scope.canonical_path@,
        decimal(scope.max_bytes as nat),
        opt_str_text(scope.declared_mime),
        decimal(scope.resource.len as nat),
        scope.resource.sha256@,
    ]);
    hash_text(join_with_newlines(&parts).as_str())
}

fn opt_as_str(m: &Option<String>) -> (r: Option<&str>)
    ensures
        opt_str_text(r) == mime_text(*m),
{
    match m {
        Some(s) => Some(s.as_str()),
        None => None,
    }
}

/// Why a file read grant cannot serve a request, checked in this order
/// (before its resource is looked at).
pub open spec fn file_rejection(g: CapabilityGrant, req: UseCapabilityRequest) -> Option<CapabilityGrantRejection> {
    if g.capability@ != req.capability@ || g.capability@ != FILE_READ_CAPABILITY@ {
        Some(CapabilityGrantRejection::WrongCapability)
    } else if g.audience@ != req.audience@ {
        Some(CapabilityGrantRejection::WrongAudience)
    } else if g.subject_actor_id@ != req.subject_actor_id@ {
        Some(CapabilityGrantRejection::WrongSubject)
    } else if g.workspace_id@ != req.workspace_id@ {
        Some(CapabilityGrantRejection::WrongWorkspace)
    } else if g.operation@ != req.operation@ {
        Some(CapabilityGrantRejection::WrongOperation)
    } else if g.canonical_path@ != req.canonical_path@ {
        Some(CapabilityGrantRejection::ScopeMismatch)
    } else if req.now < g.not_before {
        Some(CapabilityGrantRejection::NotYetValid)
    } else if req.now >= g.expires_at {
        Some(CapabilityGrantRejection::Expired)
    } else if g.revoked_at is Some {
        Some(CapabilityGrantRejection::Revoked)
    } else if g.uses_remaining == 0 {
        Some(CapabilityGrantRejection::AlreadyUsed)
    } else {
        None
    }
}

/// Whether a grant's recorded resource is the snapshot of `contents`.
pub open spec fn resource_matches(g: CapabilityGrant, contents: Seq<u8>) -> bool {
    g.resource.len == contents.len() && g.resource.sha256@ == digest_hex(contents)
}

pub open spec fn with_file_uses(g: CapabilityGrant, uses: u32) -> CapabilityGrant {
    CapabilityGrant { uses_remaining: uses, ..g }
}

/// The audit record of an issued file read grant.
pub open spec fn file_issued_audit(a: AuditRecord, g: CapabilityGrant) -> bool {
    &&& a.policy_decision_id == g.policy_decision_id
    &&& a.action == crate::policy::audit::AuditAction::GrantIssued
    &&& a.occurred_at == g.not_before
    &&& a.actor_id == g.subject_actor_id
    &&& a.workspace_id == g.workspace_id
    &&& a.audience == g.audience
    &&& a.operation == g.operation
    &&& a.canonical_path == g.canonical_path
    &&& a.capability_id == Some(g.capability_id)
    &&& (a.grant_fingerprint matches Some(f) && f@ == file_fingerprint(g))
    &&& a.decision == crate::policy::types::PolicyDecision::Allow
    &&& a.reason == crate::policy::types::PolicyReason::CapabilityGrant
}

/// The grant that issuing from `input` records for the file at `path` with `contents`.
pub open spec fn issued_file_grant(g: CapabilityGrant, input: FileReadGrantInput, path: String, contents: Seq<u8>) -> bool {
    &&& g.capability_id == input.capability_id
    &&& g.subject_actor_id == input.subject_actor_id
    &&& g.workspace_id == input.workspace_id
    &&& g.capability@ == FILE_READ_CAPABILITY@
    &&& g.audience == input.audience
    &&& g.operation == input.operation
    &&& g.canonical_path == path
    &&& g.resource.len == contents.len()
    &&& g.resource.sha256@ == digest_hex(contents)
    &&& g.max_bytes == input.max_bytes
    &&& g.declared_mime == input.declared_mime
    &&& g.not_before == input.not_before
    &&& g.expires_at == input.expires_at
    &&& g.uses_remaining == 1
    &&& g.granted_by == input.granted_by
    &&& g.approval_id == input.approval.approval_id
    &&& g.policy_decision_id == input.approval.policy_decision_id
    &&& g.revoked_at is None
}

/// What issuing a file read grant does, given the canonical path of
/// `input.path` and the file's contents as the caller resolved them.
pub open spec fn issue_file_post(
    old: CapabilityStore,
    new: CapabilityStore,
    input: FileReadGrantInput,
    canonical_path: PolicyResult<String>,
    contents: PolicyResult<Vec<u8>>,
    r: PolicyResult<Result<CapabilityGrantHandle, CapabilityGrantRejection>>,
) -> bool {
    &&& same_except_file(old, new)
    &&& if input.approval.status != ApprovalStatus::Approved {
        &&& new.file_grants() == old.file_grants()
        &&& r == Ok::<Result<CapabilityGrantHandle, CapabilityGrantRejection>, PolicyError>(Err(
            CapabilityGrantRejection::ApprovalNotApproved))
    } else {
        match canonical_path {
            Err(e) => new.file_grants() == old.file_grants() && r == Err::<Result<CapabilityGrantHandle, CapabilityGrantRejection>, PolicyError>(e),
            Ok(path) => match contents {
                Err(e) => new.file_grants() == old.file_grants() && r == Err::<Result<CapabilityGrantHandle, CapabilityGrantRejection>, PolicyError>(e),
                Ok(bytes) => if bytes@.len() > input.max_bytes {
                    &&& new.file_grants() == old.file_grants()
                    &&& r == Ok::<Result<CapabilityGrantHandle, CapabilityGrantRejection>, PolicyError>(Err(
                        CapabilityGrantRejection::ResourceTooLarge))
                } else if input.approval.scope_hash@ != file_scope_hash(input.subject_actor_id@,
                    input.workspace_id@, input.audience@, input.operation@, path@, input.max_bytes,
                    mime_text(input.declared_mime), bytes@.len() as u64, digest_hex(bytes@)) {
                    &&& new.file_grants() == old.file_grants()
                    &&& r == Ok::<Result<CapabilityGrantHandle, CapabilityGrantRejection>, PolicyError>(Err(
                        CapabilityGrantRejection::ApprovalScopeMismatch))
                } else if find_file(old.file_grants(), input.capability_id@) is Some {
                    &&& new.file_grants() == old.file_grants()
                    &&& r == Err::<Result<CapabilityGrantHandle, CapabilityGrantRejection>, PolicyError>(
                        PolicyError::DuplicateCapabilityId(input.capability_id))
                } else {
                    &&& new.file_grants().len() == old.file_grants().len() + 1
                    &&& new.file_grants().drop_last() == old.file_grants()
                    &&& issued_file_grant(new.file_grants().last(), input, path, bytes@)
                    &&& (r matches Ok(Ok(h)) && h.capability_id == input.capability_id
                        && file_issued_audit(h.audit, new.file_grants().last()))
                },
            },
        }
    }
}

/// What consuming a file read grant does, given the contents of the file at
/// the request's canonical path as the caller read them.
pub open spec fn consume_file_post(
    old: CapabilityStore,
    new: CapabilityStore,
    request: UseCapabilityRequest,
    contents: PolicyResult<Vec<u8>>,
    r: PolicyResult<Result<CapabilityConsumption, CapabilityUseFailure>>,
) -> bool {
    &&& same_except_file(old, new)
    &&& match find_file(old.file_grants(), request.capability_id@) {
        None => {
            &&& new.file_grants() == old.file_grants()
            &&& r == Ok::<Result<CapabilityConsumption, CapabilityUseFailure>, PolicyError>(Err(
                CapabilityUseFailure { rejection: CapabilityGrantRejection::Unknown, grant_fingerprint: None }))
        },
        Some(i) => {
            let g = old.file_grants()[i];
            let rejection = match file_rejection(g, request) {
                Some(rej) => Some(rej),
                None => match contents {
                    Err(_) => None,
                    Ok(bytes) => if bytes@.len() > g.max_bytes {
                        Some(CapabilityGrantRejection::ResourceTooLarge)
                    } else if !resource_matches(g, bytes@) {
                        Some(CapabilityGrantRejection::ResourceChanged)
                    } else {
                        None
                    },
                },
            };
            match rejection {
                Some(rej) => {
                    &&& new.file_grants() == old.file_grants()
                    &&& (r matches Ok(Err(f)) && f.rejection == rej
                        && (f.grant_fingerprint matches Some(fp) && fp@ == file_fingerprint(g)))
                },
                None => match contents {
                    Err(e) => new.file_grants() == old.file_grants()
                        && r == Err::<Result<CapabilityConsumption, CapabilityUseFailure>, PolicyError>(e),
                    Ok(_) => {
                        &&& new.file_grants() == old.file_grants().update(i, with_file_uses(g, (g.uses_remaining - 1) as u32))
                        &&& (r matches Ok(Ok(c)) && c.grant_fingerprint@ == file_fingerprint(g))
                    },
                },
            }
        },
    }
}

impl CapabilityStore {
    /// Issues a single-use file read grant. The approval must be approved and
    /// bound, by its scope hash, to this actor, workspace, audience, operation,
    /// canonical path, size limit, declared MIME type and the file's current
    /// contents. `canonical_path` is the caller's resolution of `input.path`
    /// and `contents` the bytes read from it; their errors are returned as
    /// they are, once the approval has been checked.
    pub fn issue_file_read_grant(
        &mut self,
        input: FileReadGrantInput,
        canonical_path: PolicyResult<String>,
        contents: PolicyResult<Vec<u8>>,
    ) -> (r: PolicyResult<Result<CapabilityGrantHandle, CapabilityGrantRejection>>)
        requires
            old(self).wf(),
        ensures
            final(self).wf(),
            issue_file_post(*old(self), *final(self), input, canonical_path, contents, r),
    {
        if input.approval.status != ApprovalStatus::Approved {
            return Ok(Err(CapabilityGrantRejection::ApprovalNotApproved));
        }
        let path = match canonical_path {
            Ok(p) => p,
            Err(e) => {
                return Err(e);
            },
        };
        let bytes = match contents {
            Ok(b) => b,
            Err(e) => {
                return Err(e);
            },
        };
        let resource = match snapshot_file(bytes.as_slice(), input.max_bytes) {
            Some(res) => res,
            None => {
                return Ok(Err(CapabilityGrantRejection::ResourceTooLarge));
            },
        };
        let expected = file_read_grant_scope_hash(&FileReadGrantScope {
            subject_actor_id: input.subject_actor_id.as_str(),
            workspace_id: input.workspace_id.as_str(),
            audience: input.audience.as_str(),
            operation: input.operation.as_str(),
            canonical_path: path.as_str(),
            max_bytes: input.max_bytes,
            declared_mime: opt_as_str(&input.declared_mime),
            resource: &resource,
        });
        if !str_eq(input.approval.scope_hash.as_str(), expected.as_str()) {
            return Ok(Err(CapabilityGrantRejection::ApprovalScopeMismatch));
        }
        let capability_id = input.capability_id;
        if find_file_exec(&self.grants, capability_id.as_str()).is_some() {
            return Err(PolicyError::DuplicateCapabilityId(capability_id));
        }
        proof { lemma_find_file(self.grants@, capability_id@); }
        let grant = CapabilityGrant {
            capability_id: capability_id.clone(),
            subject_actor_id: input.subject_actor_id,
            workspace_id: input.workspace_id,
            capability: owned(FILE_READ_CAPABILITY),
            audience: input.audience,
            operation: input.operation,
            canonical_path: path,
            resource,
            max_bytes: input.max_bytes,
            declared_mime: input.declared_mime,
            not_before: input.not_before,
            expires_at: input.expires_at,
            uses_remaining: 1,
            granted_by: input.granted_by,
            approval_id: input.approval.approval_id,
            policy_decision_id: input.approval.policy_decision_id,
            revoked_at: None,
        };
        let audit = AuditRecord::grant_issued(&grant);
        self.grants.push(grant);
        assert(self.grants@.drop_last() =~= old(self).grants@);
        Ok(Ok(CapabilityGrantHandle { capability_id, audit }))
    }

    /// Consumes the one use of a file read grant that serves the request and
    /// whose file is unchanged; `contents` are the bytes of the file at
    /// `request.canonical_path`. A grant that cannot serve it is reported and
    /// left unchanged.
    pub fn consume_file_read_grant(
        &mut self,
        request: &UseCapabilityRequest,
        contents: &PolicyResult<Vec<u8>>,
    ) -> (r: PolicyResult<Result<CapabilityConsumption, CapabilityUseFailure>>)
        requires
            old(self).wf(),
        ensures
            final(self).wf(),
            consume_file_post(*old(self), *final(self), *request, *contents, r),
    {
        let i = match find_file_exec(&self.grants, request.capability_id.as_str()) {
            Some(i) => i,
            None => {
                return Ok(Err(CapabilityUseFailure {
                    rejection: CapabilityGrantRejection::Unknown,
                    grant_fingerprint: None,
                }));
            },
        };
        proof { lemma_find_file(self.grants@, request.capability_id@); }
        let g = &self.grants[i];
        let fp = g.fingerprint();
        let rejection = if !str_eq(g.capability.as_str(), request.capability.as_str())
            || !str_eq(g.capability.as_str(), FILE_READ_CAPABILITY) {
            Some(CapabilityGrantRejection::WrongCapability)
        } else if !str_eq(g.audience.as_str(), request.audience.as_str()) {
            Some(CapabilityGrantRejection::WrongAudience)
        } else if !str_eq(g.subject_actor_id.as_str(), request.subject_actor_id.as_str()) {
            Some(CapabilityGrantRejection::WrongSubject)
        } else if !str_eq(g.workspace_id.as_str(), request.workspace_id.as_str()) {
            Some(CapabilityGrantRejection::WrongWorkspace)
        } else if !str_eq(g.operation.as_str(), request.operation.as_str()) {
            Some(CapabilityGrantRejection::WrongOperation)
        } else if !str_eq(g.canonical_path.as_str(), request.canonical_path.as_str()) {
            Some(CapabilityGrantRejection::ScopeMismatch)
        } else if request.now < g.not_before {
            Some(CapabilityGrantRejection::NotYetValid)
        } else if request.now >= g.expires_at {
            Some(CapabilityGrantRejection::Expired)
        } else if g.revoked_at.is_some() {
            Some(CapabilityGrantRejection::Revoked)
        } else if g.uses_remaining == 0 {
            Some(CapabilityGrantRejection::AlreadyUsed)
        } else {
            match contents {
                Err(e) => {
                    return Err(e.clone());
                },
                Ok(bytes) => match snapshot_file(bytes.as_slice(), g.max_bytes) {
                    None => Some(CapabilityGrantRejection::ResourceTooLarge),
                    Some(snap) => if snap.len != g.resource.len || !str_eq(snap.sha256.as_str(), g.resource.sha256.as_str()) {
                        Some(CapabilityGrantRejection::ResourceChanged)
                    } else {
                        None
                    },
                },
            }
        };
        match rejection {
            Some(rejection) => Ok(Err(CapabilityUseFailure { rejection, grant_fingerprint: Some(fp) })),
            None => {
                let mut updated = self.grants.remove(i);
                updated.uses_remaining = updated.uses_remaining - 1;
                self.grants.insert(i, updated);
                assert(self.grants@ =~= old(self).grants@.update(i as int, with_file_uses(old(self).grants@[i as int],
                    (old(self).grants@[i as int].uses_remaining - 1) as u32)));
                assert forall|a: int, b: int| 0 <= a < b < self.grants@.len() implies
                    (#[trigger] self.grants@[a]).capability_id@ != (#[trigger] self.grants@[b]).capability_id@ by {
                    assert(old(self).grants@[a].capability_id@ != old(self).grants@[b].capability_id@);
                }
                Ok(Ok(CapabilityConsumption { grant_fingerprint: fp }))
            },
        }
    }

    /// Uses left on a file read grant, if it exists.
    pub fn uses_remaining(&self, capability_id: &str) -> (r: PolicyResult<Option<u32>>)
        ensures
            r == Ok::<Option<u32>, PolicyError>(match find_file(self.file_grants(), capability_id@) {
                Some(i) => Some(self.file_grants()[i].uses_remaining),
                None => None,
            }),
    {
        match find_file_exec(&self.grants, capability_id) {
            Some(i) => Ok(Some(self.grants[i].uses_remaining)),
            None => Ok(None),
        }
    }
}


// ---------------------------------------------------------------------------
// Channel action grants.
// ---------------------------------------------------------------------------

/// Two provenance records with the same contents.
pub open spec fn same_provenance(a: Provenance, b: Provenance) -> bool {
    &&& a.transaction_id == b.transaction_id
    &&& a.source_id == b.source_id
    &&& a.citation_ids@ == b.citation_ids@
    &&& a.thread_scope == b.thread_scope
    &&& a.audit_id == b.audit_id
}

/// Two channel action grants with the same contents.
pub open spec fn same_channel_grant(a: ChannelActionGrant, b: ChannelActionGrant) -> bool {
    &&& a.grant_id == b.grant_id
    &&& a.scope == b.scope
    &&& a.audience == b.audience
    &&& a.ttl == b.ttl
    &&& a.uses_remaining == b.uses_remaining
    &&& a.idempotency_key == b.idempotency_key
    &&& a.allowed_actions@ == b.allowed_actions@
    &&& same_provenance(a.provenance, b.provenance)
    &&& a.expires_at == b.expires_at
}

impl Clone for Provenance {
    fn clone(&self) -> (r: Self)
        ensures
            same_provenance(r, *self),
    {
        Provenance {
            transaction_id: self.transaction_id.clone(),
            source_id: self.source_id.clone(),
            citation_ids: clone_strings(&self.citation_ids),
            thread_scope: self.thread_scope.clone(),
            audit_id: self.audit_id.clone(),
        }
    }
}

impl Clone for ChannelActionGrant {
    fn clone(&self) -> (r: Self)
        ensures
            same_channel_grant(r, *self),
    {
        ChannelActionGrant {
            grant_id: self.grant_id.clone(),
            scope: self.scope.clone(),
            audience: self.audience.clone(),
            ttl: self.ttl,
            uses_remaining: self.uses_remaining,
            idempotency_key: self.idempotency_key.clone(),
            allowed_actions: clone_strings(&self.allowed_actions),
            provenance: self.provenance.clone(),
            expires_at: self.expires_at,
        }
    }
}

/// The grant issued from `input`: valid until `issued_at + ttl`, for `uses` uses.
pub open spec fn issued_channel_grant(g: ChannelActionGrant, input: IssueChannelActionGrantInput) -> bool {
    &&& g.grant_id == input.grant_id
    &&& g.scope == input.scope
    &&& g.audience == input.audience
    &&& g.ttl == input.ttl
    &&& g.uses_remaining == input.uses
    &&& g.idempotency_key == input.idempotency_key
    &&& g.allowed_actions@ == input.allowed_actions@
    &&& same_provenance(g.provenance, input.provenance)
    &&& g.expires_at == input.issued_at + input.ttl
}

pub open spec fn with_channel_uses(g: ChannelActionGrant, uses: u32) -> ChannelActionGrant {
    ChannelActionGrant { uses_remaining: uses, ..g }
}

/// Why a channel action grant cannot be used at `now`, checked in this order.
pub open spec fn channel_rejection(found: Option<ChannelActionGrant>, now: Timestamp) -> Option<GrantError> {
    match found {
        None => Some(GrantError::GrantNotFound),
        Some(g) => if now >= g.expires_at {
            Some(GrantError::GrantExpired)
        } else if g.uses_remaining == 0 {
            Some(GrantError::UsesExhausted)
        } else {
            None
        },
    }
}

pub open spec fn found_channel(s: Seq<ChannelActionGrant>, id: Seq<char>) -> Option<ChannelActionGrant> {
    match find_channel(s, id) {
        Some(i) => Some(s[i]),
        None => None,
    }
}

impl CapabilityStore {
    /// Issues a channel action grant; an id already issued is reported and
    /// changes nothing.
    pub fn issue_channel_action_grant(
        &mut self,
        input: IssueChannelActionGrantInput,
    ) -> (r: PolicyResult<Result<ChannelActionGrant, GrantError>>)
        requires
            old(self).wf(),
            find_channel(old(self).channel(), input.grant_id@) is None ==> input.issued_at + input.ttl <= u64::MAX,
        ensures
            final(self).wf(),
            same_except_channel(*old(self), *final(self)),
            find_channel(old(self).channel(), input.grant_id@) is Some ==> {
                &&& final(self).channel() == old(self).channel()
                &&& r == Ok::<Result<ChannelActionGrant, GrantError>, PolicyError>(Err(GrantError::DuplicateGrantId(input.grant_id)))
            },
            find_channel(old(self).channel(), input.grant_id@) is None ==> {
                &&& final(self).channel().len() == old(self).channel().len() + 1
                &&& final(self).channel().drop_last() == old(self).channel()
                &&& issued_channel_grant(final(self).channel().last(), input)
                &&& (r matches Ok(Ok(g)) && same_channel_grant(g, final(self).channel().last()))
            },
    {
        if find_channel_exec(&self.channel_action_grants, input.grant_id.as_str()).is_some() {
            return Ok(Err(GrantError::DuplicateGrantId(input.grant_id)));
        }
        proof { lemma_find_channel(self.channel_action_grants@, input.grant_id@); }
        let grant = ChannelActionGrant {
            grant_id: input.grant_id,
            scope: input.scope,
            audience: input.audience,
            ttl: input.ttl,
            uses_remaining: input.uses,
            idempotency_key: input.idempotency_key,
            allowed_actions: input.allowed_actions,
            provenance: input.provenance,
            expires_at: input.issued_at + input.ttl,
        };
        let copy = grant.clone();
        self.channel_action_grants.push(grant);
        assert(self.channel_action_grants@.drop_last() =~= old(self).channel_action_grants@);
        Ok(Ok(copy))
    }

    /// Consumes one use of a channel action grant that exists, has not
    /// expired at `now` and has uses left; otherwise nothing changes.
    pub fn consume_channel_action_grant(&mut self, grant_id: &str, now: Timestamp) -> (r: PolicyResult<
        Result<ChannelActionGrantConsumption, GrantError>,
    >)
        requires
            old(self).wf(),
        ensures
            final(self).wf(),
            same_except_channel(*old(self), *final(self)),
            channel_rejection(found_channel(old(self).channel(), grant_id@), now) matches Some(e) ==> {
                &&& final(self).channel() == old(self).channel()
                &&& r == Ok::<Result<ChannelActionGrantConsumption, GrantError>, PolicyError>(Err(e))
            },
            channel_rejection(found_channel(old(self).channel(), grant_id@), now) is None ==> {
                let i = find_channel(old(self).channel(), grant_id@)->0;
                let g = old(self).channel()[i];
                &&& final(self).channel() == old(self).channel().update(i, with_channel_uses(g, (g.uses_remaining - 1) as u32))
                &&& (r matches Ok(Ok(c)) && c.grant_id@ == grant_id@)
            },
    {
        let i = match find_channel_exec(&self.channel_action_grants, grant_id) {
            Some(i) => i,
            None => {
                return Ok(Err(GrantError::GrantNotFound));
            },
        };
        proof { lemma_find_channel(self.channel_action_grants@, grant_id@); }
        if now >= self.channel_action_grants[i].expires_at {
            return Ok(Err(GrantError::GrantExpired));
        }
        if self.channel_action_grants[i].uses_remaining == 0 {
            return Ok(Err(GrantError::UsesExhausted));
        }
        let mut updated = self.channel_action_grants.remove(i);
        updated.uses_remaining = updated.uses_remaining - 1;
        self.channel_action_grants.insert(i, updated);
        assert(self.channel_action_grants@ =~= old(self).channel_action_grants@.update(i as int, with_channel_uses(
            old(self).channel_action_grants@[i as int], (old(self).channel_action_grants@[i as int].uses_remaining - 1) as u32)));
        assert forall|a: int, b: int| 0 <= a < b < self.channel_action_grants@.len() implies
            (#[trigger] self.channel_action_grants@[a]).grant_id@ != (#[trigger] self.channel_action_grants@[b]).grant_id@ by {
            assert(old(self).channel_action_grants@[a].grant_id@ != old(self).channel_action_grants@[b].grant_id@);
        }
        Ok(Ok(ChannelActionGrantConsumption { grant_id: owned(grant_id) }))
    }

    /// Uses left on a channel action grant, if it exists.
    pub fn channel_action_uses_remaining(&self, grant_id: &str) -> (r: PolicyResult<Option<u32>>)
        ensures
            r == Ok::<Option<u32>, PolicyError>(match find_channel(self.channel(), grant_id@) {
                Some(i) => Some(self.channel()[i].uses_remaining),
                None => None,
            }),
    {
        match find_channel_exec(&self.channel_action_grants, grant_id) {
            Some(i) => Ok(Some(self.channel_action_grants[i].uses_remaining)),
            None => Ok(None),
        }
    }
}

// ---------------------------------------------------------------------------
// Memory and source scopes.
// ---------------------------------------------------------------------------

proof fn lemma_find_scope_same_keys(s: Seq<ScopeEntry>, t: Seq<ScopeEntry>, actor: Seq<char>, workspace: Seq<char>)
    requires
        s.len() == t.len(),
        forall|j: int| 0 <= j < s.len() ==> (#[trigger] s[j]).actor_id@ == t[j].actor_id@ && s[j].workspace_id@
            == t[j].workspace_id@,
    ensures
        find_scope(s, actor, workspace) == find_scope(t, actor, workspace),
    decreases s.len(),
{
    if s.len() > 0 {
        lemma_find_scope_same_keys(s.drop_last(), t.drop_last(), actor, workspace);
    }
}

/// Sets the scopes of (actor, workspace) in `entries`: the scopes of that key
/// become `scopes`, every other key's stay as they were.
fn set_scopes(entries: &mut Vec<ScopeEntry>, actor_id: &str, workspace_id: &str, scopes: Vec<String>)
    ensures
        scopes_of(final(entries)@, actor_id@, workspace_id@) == scopes@,
        forall|a: Seq<char>, w: Seq<char>| !(a == actor_id@ && w == workspace_id@) ==> scopes_of(final(entries)@, a, w)
            == scopes_of(old(entries)@, a, w),
{
    let entry = ScopeEntry { actor_id: owned(actor_id), workspace_id: owned(workspace_id), scopes };
    match find_scope_exec(entries, actor_id, workspace_id) {
        Some(i) => {
            proof { lemma_find_scope(entries@, actor_id@, workspace_id@); }
            entries.set(i, entry);
            assert forall|a: Seq<char>, w: Seq<char>| #![auto] find_scope(entries@, a, w) == find_scope(old(entries)@, a, w) by {
                lemma_find_scope_same_keys(entries@, old(entries)@, a, w);
            }
            assert forall|a: Seq<char>, w: Seq<char>| !(a == actor_id@ && w == workspace_id@) implies scopes_of(entries@, a, w)
                == scopes_of(old(entries)@, a, w) by {
                lemma_find_scope(old(entries)@, a, w);
            }
        },
        None => {
            entries.push(entry);
            assert(entries@.drop_last() =~= old(entries)@);
            assert forall|a: Seq<char>, w: Seq<char>| !(a == actor_id@ && w == workspace_id@) implies scopes_of(entries@, a, w)
                == scopes_of(old(entries)@, a, w) by {
                assert(find_scope(entries@, a, w) == find_scope(old(entries)@, a, w));
                lemma_find_scope(old(entries)@, a, w);
                if let Some(j) = find_scope(old(entries)@, a, w) {
                    assert(entries@[j] == old(entries)@[j]);
                }
            }
        },
    }
}

impl CapabilityStore {
    /// Sets an actor's memory scopes in a workspace.
    pub fn set_memory_scopes(&mut self, actor_id: &str, workspace_id: &str, scopes: Vec<String>) -> (r: PolicyResult<()>)
        requires
            old(self).wf(),
        ensures
            final(self).wf(),
            r is Ok,
            final(self).generic() == old(self).generic(),
            final(self).file_grants() == old(self).file_grants(),
            final(self).channel() == old(self).channel(),
            final(self).source() == old(self).source(),
            scopes_of(final(self).memory(), actor_id@, workspace_id@) == scopes@,
            forall|a: Seq<char>, w: Seq<char>| !(a == actor_id@ && w == workspace_id@) ==> scopes_of(final(self).memory(), a, w)
                == scopes_of(old(self).memory(), a, w),
    {
        set_scopes(&mut self.actor_memory_scopes, actor_id, workspace_id, scopes);
        Ok(())
    }

    /// Sets an actor's source scopes in a workspace.
    pub fn set_source_scopes(&mut self, actor_id: &str, workspace_id: &str, scopes: Vec<String>) -> (r: PolicyResult<()>)
        requires
            old(self).wf(),
        ensures
            final(self).wf(),
            r is Ok,
            final(self).generic() == old(self).generic(),
            final(self).file_grants() == old(self).file_grants(),
            final(self).channel() == old(self).channel(),
            final(self).memory() == old(self).memory(),
            scopes_of(final(self).source(), actor_id@, workspace_id@) == scopes@,
            forall|a: Seq<char>, w: Seq<char>| !(a == actor_id@ && w == workspace_id@) ==> scopes_of(final(self).source(), a, w)
                == scopes_of(old(self).source(), a, w),
    {
        set_scopes(&mut self.actor_source_scopes, actor_id, workspace_id, scopes);
        Ok(())
    }

    /// Whether the actor holds `scope` among its memory scopes in the workspace.
    pub fn has_memory_scope(&self, actor_id: &str, workspace_id: &str, scope: &str) -> (r: PolicyResult<bool>)
        ensures
            r == Ok::<bool, PolicyError>(contains_text(scopes_of(self.memory(), actor_id@, workspace_id@), scope@)),
    {
        match find_scope_exec(&self.actor_memory_scopes, actor_id, workspace_id) {
            Some(i) => Ok(contains_text_exec(&self.actor_memory_scopes[i].scopes, scope)),
            None => Ok(false),
        }
    }

    /// Whether the actor holds `scope` among its source scopes in the workspace.
    pub fn has_source_scope(&self, actor_id: &str, workspace_id: &str, scope: &str) -> (r: PolicyResult<bool>)
        ensures
            r == Ok::<bool, PolicyError>(contains_text(scopes_of(self.source(), actor_id@, workspace_id@), scope@)),
    {
        match find_scope_exec(&self.actor_source_scopes, actor_id, workspace_id) {
            Some(i) => Ok(contains_text_exec(&self.actor_source_scopes[i].scopes, scope)),
            None => Ok(false),
        }
    }
}


// ---------------------------------------------------------------------------
// Laws of the store.
// ---------------------------------------------------------------------------

proof fn lemma_find_file_same_ids(s: Seq<CapabilityGrant>, t: Seq<CapabilityGrant>, id: Seq<char>)
    requires
        s.len() == t.len(),
        forall|j: int| 0 <= j < s.len() ==> (#[trigger] s[j]).capability_id@ == t[j].capability_id@,
    ensures
        find_file(s, id) == find_file(t, id),
    decreases s.len(),
{
    if s.len() > 0 {
        lemma_find_file_same_ids(s.drop_last(), t.drop_last(), id);
    }
}

/// Whether `r` reports a successful use.
pub open spec fn consumed<T, E>(r: PolicyResult<Result<T, E>>) -> bool {
    r matches Ok(Ok(_))
}

/// A file read grant issued for one use serves at most one of two successive
/// requests for it.
pub proof fn law_file_grant_single_use(
    s0: CapabilityStore,
    s1: CapabilityStore,
    s2: CapabilityStore,
    first: UseCapabilityRequest,
    second: UseCapabilityRequest,
    contents1: PolicyResult<Vec<u8>>,
    contents2: PolicyResult<Vec<u8>>,
    r1: PolicyResult<Result<CapabilityConsumption, CapabilityUseFailure>>,
    r2: PolicyResult<Result<CapabilityConsumption, CapabilityUseFailure>>,
)
    requires
        consume_file_post(s0, s1, first, contents1, r1),
        consume_file_post(s1, s2, second, contents2, r2),
        first.capability_id@ == second.capability_id@,
        find_file(s0.file_grants(), first.capability_id@) matches Some(i) && s0.file_grants()[i].uses_remaining == 1,
    ensures
        !(consumed(r1) && consumed(r2)),
{
    lemma_find_file(s0.file_grants(), first.capability_id@);
    let i = find_file(s0.file_grants(), first.capability_id@)->0;
    if consumed(r1) {
        let g = s0.file_grants()[i];
        assert(s1.file_grants() == s0.file_grants().update(i, with_file_uses(g, 0)));
        lemma_find_file_same_ids(s1.file_grants(), s0.file_grants(), first.capability_id@);
        assert(s1.file_grants()[i].uses_remaining == 0);
    }
}

/// A use of a file read grant that is not granted leaves the store as it was.
pub proof fn law_refused_file_use_changes_nothing(
    old: CapabilityStore,
    new: CapabilityStore,
    request: UseCapabilityRequest,
    contents: PolicyResult<Vec<u8>>,
    r: PolicyResult<Result<CapabilityConsumption, CapabilityUseFailure>>,
)
    requires
        consume_file_post(old, new, request, contents, r),
        !consumed(r),
    ensures
        new.file_grants() == old.file_grants(),
        same_except_file(old, new),
{
}

/// A use of a generic grant that is not granted leaves the store as it was.
pub proof fn law_refused_generic_use_changes_nothing(
    old: CapabilityStore,
    new: CapabilityStore,
    request: GenericUseCapabilityRequest,
    r: PolicyResult<Result<CapabilityConsumption, CapabilityUseFailure>>,
)
    requires
        consume_generic_post(old, new, request, r),
        !consumed(r),
    ensures
        new.generic() == old.generic(),
        same_except_generic(old, new),
{
}

/// A file read grant is never used at or after its expiry, and such a request
/// leaves it as it was.
pub proof fn law_expired_file_grant_is_not_used(
    old: CapabilityStore,
    new: CapabilityStore,
    request: UseCapabilityRequest,
    contents: PolicyResult<Vec<u8>>,
    r: PolicyResult<Result<CapabilityConsumption, CapabilityUseFailure>>,
)
    requires
        consume_file_post(old, new, request, contents, r),
        find_file(old.file_grants(), request.capability_id@) matches Some(i) && request.now
            >= old.file_grants()[i].expires_at,
    ensures
        !consumed(r),
        new.file_grants() == old.file_grants(),
{
}

/// A generic grant is never used at or after its expiry.
pub proof fn law_expired_generic_grant_is_not_used(
    old: CapabilityStore,
    new: CapabilityStore,
    request: GenericUseCapabilityRequest,
    r: PolicyResult<Result<CapabilityConsumption, CapabilityUseFailure>>,
)
    requires
        consume_generic_post(old, new, request, r),
        find_generic(old.generic(), request.capability_id@) matches Some(i) && request.now
            >= old.generic()[i].expires_at,
    ensures
        !consumed(r),
        new.generic() == old.generic(),
{
}

/// Each granted use of a generic grant takes exactly one use from it.
pub proof fn law_generic_use_takes_one(
    old: CapabilityStore,
    new: CapabilityStore,
    request: GenericUseCapabilityRequest,
    r: PolicyResult<Result<CapabilityConsumption, CapabilityUseFailure>>,
)
    requires
        consume_generic_post(old, new, request, r),
        consumed(r),
    ensures
        find_generic(old.generic(), request.capability_id@) matches Some(i) && old.generic()[i].uses_remaining > 0
            && new.generic()[i].uses_remaining == old.generic()[i].uses_remaining - 1,
{
    lemma_find_generic(old.generic(), request.capability_id@);
}

/// Each granted use of a file read grant takes exactly one use from it.
pub proof fn law_file_use_takes_one(
    old: CapabilityStore,
    new: CapabilityStore,
    request: UseCapabilityRequest,
    contents: PolicyResult<Vec<u8>>,
    r: PolicyResult<Result<CapabilityConsumption, CapabilityUseFailure>>,
)
    requires
        consume_file_post(old, new, request, contents, r),
        consumed(r),
    ensures
        find_file(old.file_grants(), request.capability_id@) matches Some(i) && old.file_grants()[i].uses_remaining > 0
            && new.file_grants()[i].uses_remaining == old.file_grants()[i].uses_remaining - 1,
{
    lemma_find_file(old.file_grants(), request.capability_id@);
}

/// How many uses of the generic grant `id` in a history succeeded.
pub open spec fn generic_uses_taken(
    reqs: Seq<GenericUseCapabilityRequest>,
    rs: Seq<PolicyResult<Result<CapabilityConsumption, CapabilityUseFailure>>>,
    id: Seq<char>,
) -> nat
    decreases rs.len(),
{
    if rs.len() == 0 || reqs.len() == 0 {
        0
    } else {
        generic_uses_taken(reqs.drop_last(), rs.drop_last(), id) + if reqs.last().capability_id@ == id && consumed(rs.last()) {
            1nat
        } else {
            0nat
        }
    }
}

/// How many uses of the file read grant `id` in a history succeeded.
pub open spec fn file_uses_taken(
    reqs: Seq<UseCapabilityRequest>,
    rs: Seq<PolicyResult<Result<CapabilityConsumption, CapabilityUseFailure>>>,
    id: Seq<char>,
) -> nat
    decreases rs.len(),
{
    if rs.len() == 0 || reqs.len() == 0 {
        0
    } else {
        file_uses_taken(reqs.drop_last(), rs.drop_last(), id) + if reqs.last().capability_id@ == id && consumed(rs.last()) {
            1nat
        } else {
            0nat
        }
    }
}

proof fn lemma_find_generic_ids(s1: Seq<GenericCapabilityGrant>, s2: Seq<GenericCapabilityGrant>, id: Seq<char>)
    requires
        s1.len() == s2.len(),
        forall|j: int| 0 <= j < s1.len() ==> (#[trigger] s1[j]).capability_id == s2[j].capability_id,
    ensures
        find_generic(s1, id) == find_generic(s2, id),
    decreases s1.len(),
{
    if s1.len() > 0 {
        assert(s1.last().capability_id == s2.last().capability_id);
        lemma_find_generic_ids(s1.drop_last(), s2.drop_last(), id);
    }
}

proof fn lemma_find_file_ids(s1: Seq<CapabilityGrant>, s2: Seq<CapabilityGrant>, id: Seq<char>)
    requires
        s1.len() == s2.len(),
        forall|j: int| 0 <= j < s1.len() ==> (#[trigger] s1[j]).capability_id == s2[j].capability_id,
    ensures
        find_file(s1, id) == find_file(s2, id),
    decreases s1.len(),
{
    if s1.len() > 0 {
        assert(s1.last().capability_id == s2.last().capability_id);
        lemma_find_file_ids(s1.drop_last(), s2.drop_last(), id);
    }
}

/// Over a history of generic grant uses, a grant's uses go down by one for
/// each successful use of it, and by nothing else.
pub proof fn law_generic_uses_count_down(
    ss: Seq<CapabilityStore>,
    reqs: Seq<GenericUseCapabilityRequest>,
    rs: Seq<PolicyResult<Result<CapabilityConsumption, CapabilityUseFailure>>>,
    id: Seq<char>,
)
    requires
        ss.len() == reqs.len() + 1,
        rs.len() == reqs.len(),
        forall|j: int| 0 <= j < reqs.len() ==> #[trigger] consume_generic_post(ss[j], ss[j + 1], reqs[j], rs[j]),
        find_generic(ss[0].generic(), id) is Some,
    ensures
        find_generic(ss.last().generic(), id) == find_generic(ss[0].generic(), id),
        ss.last().generic()[find_generic(ss[0].generic(), id)->0].uses_remaining + generic_uses_taken(reqs, rs, id) == ss[0].generic()[find_generic(ss[0].generic(), id)->0].uses_remaining,
    decreases reqs.len(),
{
    let n = reqs.len() as int;
    lemma_find_generic(ss[0].generic(), id);
    if n > 0 {
        let ss0 = ss.drop_last();
        let reqs0 = reqs.drop_last();
        let rs0 = rs.drop_last();
        assert forall|j: int| 0 <= j < reqs0.len() implies #[trigger] consume_generic_post(ss0[j], ss0[j + 1], reqs0[j], rs0[j]) by {
            assert(consume_generic_post(ss[j], ss[j + 1], reqs[j], rs[j]));
        }
        law_generic_uses_count_down(ss0, reqs0, rs0, id);
        let i0 = find_generic(ss[0].generic(), id)->0;
        let before = ss[n - 1];
        let after = ss[n];
        assert(consume_generic_post(ss[n - 1], ss[n], reqs[n - 1], rs[n - 1]));
        assert(ss0.last() == before);
        lemma_find_generic(before.generic(), reqs[n - 1].capability_id@);
        match find_generic(before.generic(), reqs[n - 1].capability_id@) {
            None => {},
            Some(k) => {
                let g = before.generic()[k];
                if generic_rejection(g, reqs[n - 1]) is None {
                    assert forall|j: int| 0 <= j < before.generic().len() implies (#[trigger] before.generic()[j]).capability_id
                        == after.generic()[j].capability_id by {}
                    lemma_find_generic_ids(before.generic(), after.generic(), id);
                    lemma_find_generic(before.generic(), id);
                    if reqs[n - 1].capability_id@ == id {
                        assert(k == i0);
                        law_generic_use_takes_one(before, after, reqs[n - 1], rs[n - 1]);
                    } else {
                        assert(k != i0);
                    }
                }
            },
        }
        assert(ss.last() == after);
    }
}

/// Over a history of file read grant uses, a grant's uses go down by one for
/// each successful use of it, and by nothing else.
pub proof fn law_file_uses_count_down(
    ss: Seq<CapabilityStore>,
    reqs: Seq<UseCapabilityRequest>,
    contents: Seq<PolicyResult<Vec<u8>>>,
    rs: Seq<PolicyResult<Result<CapabilityConsumption, CapabilityUseFailure>>>,
    id: Seq<char>,
)
    requires
        ss.len() == reqs.len() + 1,
        rs.len() == reqs.len(),
        contents.len() == reqs.len(),
        forall|j: int| 0 <= j < reqs.len() ==> #[trigger] consume_file_post(ss[j], ss[j + 1], reqs[j], contents[j], rs[j]),
        find_file(ss[0].file_grants(), id) is Some,
    ensures
        find_file(ss.last().file_grants(), id) == find_file(ss[0].file_grants(), id),
        ss.last().file_grants()[find_file(ss[0].file_grants(), id)->0].uses_remaining + file_uses_taken(reqs, rs, id) == ss[0].file_grants()[find_file(ss[0].file_grants(), id)->0].uses_remaining,
    decreases reqs.len(),
{
    let n = reqs.len() as int;
    lemma_find_file(ss[0].file_grants(), id);
    if n > 0 {
        let ss0 = ss.drop_last();
        let reqs0 = reqs.drop_last();
        let cs0 = contents.drop_last();
        let rs0 = rs.drop_last();
        assert forall|j: int| 0 <= j < reqs0.len() implies #[trigger] consume_file_post(ss0[j], ss0[j + 1], reqs0[j], cs0[j], rs0[j]) by {
            assert(consume_file_post(ss[j], ss[j + 1], reqs[j], contents[j], rs[j]));
        }
        law_file_uses_count_down(ss0, reqs0, cs0, rs0, id);
        let i0 = find_file(ss[0].file_grants(), id)->0;
        let before = ss[n - 1];
        let after = ss[n];
        assert(consume_file_post(ss[n - 1], ss[n], reqs[n - 1], contents[n - 1], rs[n - 1]));
        assert(ss0.last() == before);
        lemma_find_file(before.file_grants(), reqs[n - 1].capability_id@);
        if consumed(rs[n - 1]) {
            let k = find_file(before.file_grants(), reqs[n - 1].capability_id@)->0;
            assert forall|j: int| 0 <= j < before.file_grants().len() implies (#[trigger] before.file_grants()[j]).capability_id
                == after.file_grants()[j].capability_id by {}
            lemma_find_file_ids(before.file_grants(), after.file_grants(), id);
            lemma_find_file(before.file_grants(), id);
            if reqs[n - 1].capability_id@ == id {
                assert(k == i0);
                law_file_use_takes_one(before, after, reqs[n - 1], contents[n - 1], rs[n - 1]);
            } else {
                assert(k != i0);
            }
        }
        assert(ss.last() == after);
    }
}

/// A generic grant that was issued is found under its id with the uses it
/// was issued with.
#[allow(clippy::too_many_arguments)]
pub proof fn law_issued_generic_grant_is_found(
    old: CapabilityStore,
    new: CapabilityStore,
    now: Timestamp,
    capability_id: String,
    subject_actor_id: String,
    workspace_id: String,
    capability: String,
    audience: String,
    operation: String,
    not_before: Option<Timestamp>,
    expires_at: Option<Timestamp>,
    uses_remaining: u32,
    granted_by: String,
    r: PolicyResult<Result<CapabilityGrantHandle, CapabilityGrantRejection>>,
)
    requires
        issue_generic_post(old, new, now, capability_id, subject_actor_id, workspace_id, capability, audience, operation,
            not_before, expires_at, uses_remaining, granted_by, r),
        r matches Ok(Ok(_)),
    ensures
        find_generic(new.generic(), capability_id@) matches Some(i) && new.generic()[i].uses_remaining == uses_remaining,
{
}

/// A file read grant that was issued is found under its id with one use.
pub proof fn law_issued_file_grant_is_found(
    old: CapabilityStore,
    new: CapabilityStore,
    input: FileReadGrantInput,
    canonical_path: PolicyResult<String>,
    contents: PolicyResult<Vec<u8>>,
    r: PolicyResult<Result<CapabilityGrantHandle, CapabilityGrantRejection>>,
)
    requires
        issue_file_post(old, new, input, canonical_path, contents, r),
        r matches Ok(Ok(_)),
    ensures
        find_file(new.file_grants(), input.capability_id@) matches Some(i) && new.file_grants()[i].uses_remaining == 1,
{
}

/// A generic grant is used only by a request that matches it in every
/// respect: capability, audience, subject, workspace and operation, within its
/// validity window, not revoked, with a use left; a request for another
/// workspace is refused as such and leaves the grants as they were.
pub proof fn law_generic_use_matches_request(
    old: CapabilityStore,
    new: CapabilityStore,
    request: GenericUseCapabilityRequest,
    r: PolicyResult<Result<CapabilityConsumption, CapabilityUseFailure>>,
)
    requires
        consume_generic_post(old, new, request, r),
    ensures
        consumed(r) ==> (find_generic(old.generic(), request.capability_id@) matches Some(i) && {
            let g = old.generic()[i];
            &&& g.capability_id@ == request.capability_id@
            &&& g.capability@ == request.capability@
            &&& g.audience@ == request.audience@
            &&& g.subject_actor_id@ == request.subject_actor_id@
            &&& g.workspace_id@ == request.workspace_id@
            &&& g.operation@ == request.operation@
            &&& g.not_before <= request.now < g.expires_at
            &&& g.revoked_at is None
            &&& g.uses_remaining > 0
        }),
        (find_generic(old.generic(), request.capability_id@) matches Some(i) && {
            let g = old.generic()[i];
            &&& g.capability@ == request.capability@
            &&& g.audience@ == request.audience@
            &&& g.subject_actor_id@ == request.subject_actor_id@
            &&& g.workspace_id@ != request.workspace_id@
        }) ==> !consumed(r) && new.generic() == old.generic() && (r matches Ok(Err(f)) && f.rejection
            == CapabilityGrantRejection::WrongWorkspace),
{
    lemma_find_generic(old.generic(), request.capability_id@);
}

/// A file read grant is used only by a request that matches it in every
/// respect (capability, audience, subject, workspace, operation and path),
/// within its validity window, not revoked, with a use left, and only when the
/// file read back is within its size limit and is the snapshot it was issued
/// for.
pub proof fn law_file_use_matches_request(
    old: CapabilityStore,
    new: CapabilityStore,
    request: UseCapabilityRequest,
    contents: PolicyResult<Vec<u8>>,
    r: PolicyResult<Result<CapabilityConsumption, CapabilityUseFailure>>,
)
    requires
        consume_file_post(old, new, request, contents, r),
        consumed(r),
    ensures
        find_file(old.file_grants(), request.capability_id@) matches Some(i) && {
            let g = old.file_grants()[i];
            &&& g.capability_id@ == request.capability_id@
            &&& g.capability@ == request.capability@
            &&& g.capability@ == FILE_READ_CAPABILITY@
            &&& g.audience@ == request.audience@
            &&& g.subject_actor_id@ == request.subject_actor_id@
            &&& g.workspace_id@ == request.workspace_id@
            &&& g.operation@ == request.operation@
            &&& g.canonical_path@ == request.canonical_path@
            &&& g.not_before <= request.now < g.expires_at
            &&& g.revoked_at is None
            &&& g.uses_remaining > 0
            &&& (contents matches Ok(bytes) && bytes@.len() <= g.max_bytes && g.resource.len == bytes@.len()
                && g.resource.sha256@ == digest_hex(bytes@))
        },
{
    lemma_find_file(old.file_grants(), request.capability_id@);
}

} // verus!
