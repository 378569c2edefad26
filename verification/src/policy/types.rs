//! Shared policy types: decisions, reasons, errors, approval status.

use vstd::prelude::*;

use crate::policy::audit::AuditRecord;
use crate::policy::grant::CapabilityGrantRejection;
use crate::text::{concat2, concat3, owned, str_eq};

verus! {

pub const CAPABILITY_GRANT_VISIBILITY: &'static str = "opaque-id-only";

pub const FILE_READ_CAPABILITY: &'static str = "file.read";

/// Instants are nanoseconds since the Unix epoch.
pub type Timestamp = u64;

/// Durations are in nanoseconds.
pub type Nanos = u64;

#[derive(Debug, Clone, Copy, PartialEq, Eq, Structural)]
pub enum PolicyDecision {
    Allow,
    Deny,
    RequireApproval,
}

impl PolicyDecision {
    /// Only an `Allow` lets a side effect proceed.
    pub fn permits_side_effect(self) -> (r: bool)
        ensures
            r == (self == PolicyDecision::Allow),
    {
        match self {
            PolicyDecision::Allow => true,
            _ => false,
        }
    }
}

#[derive(Debug, Clone, Copy, PartialEq, Eq, Structural)]
pub enum SideEffectLevel {
    NoEffect,
    ProposalOnly,
    SideEffect,
}

pub open spec fn level_name(l: SideEffectLevel) -> Seq<char> {
    match l {
        SideEffectLevel::NoEffect => "none"@,
        SideEffectLevel::ProposalOnly => "proposal_only"@,
        SideEffectLevel::SideEffect => "side_effect"@,
    }
}

/// The level a name denotes, if any.
pub open spec fn level_from_name(s: Seq<char>) -> Option<SideEffectLevel> {
    if s == "none"@ {
        Some(SideEffectLevel::NoEffect)
    } else if s == "proposal_only"@ {
        Some(SideEffectLevel::ProposalOnly)
    } else if s == "side_effect"@ {
        Some(SideEffectLevel::SideEffect)
    } else {
        None
    }
}

impl SideEffectLevel {
    pub fn as_str(self) -> (r: &'static str)
        ensures
            r@ == level_name(self),
    {
        match self {
            SideEffectLevel::NoEffect => "none",
            SideEffectLevel::ProposalOnly => "proposal_only",
            SideEffectLevel::SideEffect => "side_effect",
        }
    }

    /// Reads a level from its name; any other text is reported back.
    pub fn parse(s: &str) -> (r: Result<SideEffectLevel, String>)
        ensures
            level_from_name(s@) matches Some(l) ==> r == Ok::<SideEffectLevel, String>(l),
            level_from_name(s@) is None ==> (r matches Err(e) && e@ == "unknown side_effect_level: "@ + s@),
    {
        if str_eq(s, "none") {
            Ok(SideEffectLevel::NoEffect)
        } else if str_eq(s, "proposal_only") {
            Ok(SideEffectLevel::ProposalOnly)
        } else if str_eq(s, "side_effect") {
            Ok(SideEffectLevel::SideEffect)
        } else {
            Err(concat2("unknown side_effect_level: ", s))
        }
    }
}

impl core::str::FromStr for SideEffectLevel {
    type Err = String;

    fn from_str(s: &str) -> (r: Result<SideEffectLevel, String>)
        ensures
            level_from_name(s@) matches Some(l) ==> r == Ok::<SideEffectLevel, String>(l),
            level_from_name(s@) is None ==> (r matches Err(e) && e@ == "unknown side_effect_level: "@ + s@),
    {
        SideEffectLevel::parse(s)
    }
}

#[derive(Debug, Clone, Copy, PartialEq, Eq, Structural)]
pub enum PolicyReason {
    WorkspaceAllowlist,
    CapabilityGrant,
    PathOutsideWorkspace,
    PathDenied,
    MissingCapabilityGrant,
    CapabilityGrantRejected(CapabilityGrantRejection),
}

#[derive(Debug, Clone, PartialEq, Eq)]
pub struct PolicyEvaluation {
    pub decision: PolicyDecision,
    pub reason: PolicyReason,
    pub audit: AuditRecord,
}

impl PolicyEvaluation {
    pub fn allow(reason: PolicyReason, audit: AuditRecord) -> (r: Self)
        ensures
            r == (PolicyEvaluation { decision: PolicyDecision::Allow, reason, audit }),
    {
        PolicyEvaluation { decision: PolicyDecision::Allow, reason, audit }
    }

    pub fn deny(reason: PolicyReason, audit: AuditRecord) -> (r: Self)
        ensures
            r == (PolicyEvaluation { decision: PolicyDecision::Deny, reason, audit }),
    {
        PolicyEvaluation { decision: PolicyDecision::Deny, reason, audit }
    }
}

#[derive(Debug, PartialEq, Eq)]
pub enum PolicyError {
    PathCanonicalizeFailed { path: String, message: String },
    CapabilityStorePoisoned,
    DuplicateCapabilityId(String),
    UnsupportedCapability(String),
}

impl Clone for PolicyError {
    fn clone(&self) -> (r: Self)
        ensures
            r == *self,
    {
        match self {
            PolicyError::PathCanonicalizeFailed { path, message } => PolicyError::PathCanonicalizeFailed {
                path: path.clone(),
                message: message.clone(),
            },
            PolicyError::CapabilityStorePoisoned => PolicyError::CapabilityStorePoisoned,
            PolicyError::DuplicateCapabilityId(id) => PolicyError::DuplicateCapabilityId(id.clone()),
            PolicyError::UnsupportedCapability(c) => PolicyError::UnsupportedCapability(c.clone()),
        }
    }
}

pub open spec fn policy_error_text(e: PolicyError) -> Seq<char> {
    match e {
        PolicyError::PathCanonicalizeFailed { path, message } => "failed to canonicalize "@ + path@ + ": "@ + message@,
        PolicyError::CapabilityStorePoisoned => "capability store lock poisoned"@,
        PolicyError::DuplicateCapabilityId(id) => "duplicate capability id: "@ + id@,
        PolicyError::UnsupportedCapability(c) => "unsupported capability: "@ + c@,
    }
}

impl PolicyError {
    /// The error message.
    pub fn to_string(&self) -> (r: String)
        ensures
            r@ == policy_error_text(*self),
    {
        match self {
            PolicyError::PathCanonicalizeFailed { path, message } => {
                let head = concat3("failed to canonicalize ", path.as_str(), ": ");
                concat2(head.as_str(), message.as_str())
            },
            PolicyError::CapabilityStorePoisoned => owned("capability store lock poisoned"),
            PolicyError::DuplicateCapabilityId(id) => concat2("duplicate capability id: ", id.as_str()),
            PolicyError::UnsupportedCapability(c) => concat2("unsupported capability: ", c.as_str()),
        }
    }
}

pub type PolicyResult<T> = Result<T, PolicyError>;

#[derive(Debug, Clone, Copy, PartialEq, Eq, Structural)]
pub enum ApprovalStatus {
    Pending,
    Approved,
    Denied,
}

#[derive(Debug, Clone, PartialEq, Eq)]
pub enum GrantError {
    DuplicateGrantId(String),
    GrantNotFound,
    GrantExpired,
    UsesExhausted,
}

pub open spec fn grant_error_text(e: GrantError) -> Seq<char> {
    match e {
        GrantError::DuplicateGrantId(id) => "duplicate grant id: "@ + id@,
        GrantError::GrantNotFound => "grant not found"@,
        GrantError::GrantExpired => "grant expired"@,
        GrantError::UsesExhausted => "uses exhausted"@,
    }
}

impl GrantError {
    /// The error message.
    pub fn to_string(&self) -> (r: String)
        ensures
            r@ == grant_error_text(*self),
    {
        match self {
            GrantError::DuplicateGrantId(id) => concat2("duplicate grant id: ", id.as_str()),
            GrantError::GrantNotFound => owned("grant not found"),
            GrantError::GrantExpired => owned("grant expired"),
            GrantError::UsesExhausted => owned("uses exhausted"),
        }
    }
}

} // verus!
