//! Wiki patches: validated, approved and committed as one transaction, or
//! refused with the store left as it was.

use vstd::prelude::*;

use crate::keyed::KeyedMap;
use crate::policy::grant::current_time;
use crate::policy::types::Timestamp;
use crate::text::{clone_strings, concat2, decimal, owned, str_eq, u64_to_decimal};
use crate::wiki::source::{ByteRange, LineRange, ParsedFrame, SourceManifest, SourceVisibility};

verus! {

#[derive(Debug, Clone, PartialEq, Eq)]
pub struct ConceptPage {
    pub page_id: String,
    pub title: String,
    pub definition: String,
    pub source_cards: Vec<String>,
    pub annotations: Vec<String>,
    pub temporal_context: Option<String>,
    pub supersedes: Vec<String>,
}

#[derive(Debug, Clone, PartialEq, Eq)]
pub enum TypedPage {
    Concept(ConceptPage),
}

pub open spec fn page_key(p: TypedPage) -> Seq<char> {
    match p {
        TypedPage::Concept(c) => c.page_id@,
    }
}

impl TypedPage {
    pub fn page_id(&self) -> (r: &str)
        ensures
            r@ == page_key(*self),
    {
        match self {
            TypedPage::Concept(page) => page.page_id.as_str(),
        }
    }
}

#[derive(Debug, Clone, Copy, PartialEq, Eq, Structural)]
pub enum ClaimConfidence {
    Low,
    Medium,
    High,
}

#[derive(Debug, Clone, Copy, PartialEq, Eq, Structural)]
pub enum ClaimStatus {
    Proposed,
    Active,
    Superseded,
    Conflict,
}

#[derive(Debug, Clone, PartialEq, Eq)]
pub struct Claim {
    pub claim_id: String,
    pub page_id: String,
    pub text: String,
    pub confidence: ClaimConfidence,
    pub status: ClaimStatus,
    pub citation_ids: Vec<String>,
}

#[derive(Debug, Clone, PartialEq, Eq)]
pub struct Citation {
    pub citation_id: String,
    pub claim_id: String,
    pub source_id: String,
    pub frame_id: Option<String>,
    pub byte_range: ByteRange,
    pub line_range: Option<LineRange>,
    pub quote: String,
}

#[derive(Debug, Clone, PartialEq, Eq)]
pub struct WikiPatchProposal {
    pub patch_id: String,
    pub workspace_id: String,
    pub actor_id: String,
    pub base_revision: u64,
    pub page: TypedPage,
    pub claims: Vec<Claim>,
    pub citations: Vec<Citation>,
    pub risk_summary: String,
}

#[derive(Debug, Clone, Copy, PartialEq, Eq, Structural)]
pub enum ApprovalStatus {
    Pending,
    Approved,
    Denied,
}

#[derive(Debug, Clone, PartialEq, Eq)]
pub struct ApprovalRequest {
    pub approval_id: String,
    pub patch_id: String,
    pub workspace_id: String,
    pub requested_by: String,
    pub decided_by: Option<String>,
    pub status: ApprovalStatus,
    pub decided_at: Option<Timestamp>,
}

#[derive(Debug, PartialEq, Eq)]
pub struct RollbackMarker {
    pub rollback_marker_id: String,
    pub patch_id: String,
    pub transaction_id: String,
    pub previous_revision: u64,
    pub affected_page_ids: Vec<String>,
    pub affected_claim_ids: Vec<String>,
    pub affected_citation_ids: Vec<String>,
    pub created_at: Timestamp,
}

#[derive(Debug, PartialEq, Eq)]
pub struct WikiPatchTransaction {
    pub transaction_id: String,
    pub patch_id: String,
    pub workspace_id: String,
    pub actor_id: String,
    pub base_revision: u64,
    pub committed_revision: u64,
    pub page_id: String,
    pub claim_ids: Vec<String>,
    pub citation_ids: Vec<String>,
    pub approval_id: String,
    pub rollback_marker: Option<RollbackMarker>,
    pub audit_record_id: String,
    pub risk_summary: String,
    pub committed_at: Timestamp,
}

#[derive(Debug, Clone, PartialEq, Eq)]
pub struct CitationRegistryEntry {
    pub citation_id: String,
    pub claim_id: String,
    pub source_id: String,
    pub frame_id: Option<String>,
    pub byte_range: ByteRange,
}

#[derive(Debug, Clone, PartialEq, Eq)]
pub struct AuditRecord {
    pub audit_record_id: String,
    pub transaction_id: String,
    pub patch_id: String,
    pub actor_id: String,
    pub workspace_id: String,
    pub base_revision: u64,
    pub committed_revision: u64,
    pub rollback_marker_id: String,
    pub recorded_at: Timestamp,
}

#[derive(Debug, Clone, PartialEq, Eq)]
pub struct WikiPatchWalRecord {
    pub transaction_id: String,
    pub patch_id: String,
    pub workspace_id: String,
    pub actor_id: String,
    pub committed_revision: u64,
    pub rollback_marker_id: String,
}

#[derive(Debug, Clone, Copy, PartialEq, Eq, Structural)]
pub enum WikiIndexStatus {
    Fresh,
    Stale,
}

#[derive(Debug, Clone, PartialEq, Eq)]
pub enum WikiPatchError {
    InvalidCitation { citation_id: String, reason: String },
    TombstonedSource { citation_id: String, source_id: String },
    BaseRevisionConflict { expected_revision: u64, actual_revision: u64, patch_id: String },
    ApprovalRequired { patch_id: String },
    ApprovalNotGranted { approval_id: String, patch_id: String, status: ApprovalStatus },
    ApprovalPatchMismatch { approval_id: String, expected_patch_id: String, actual_patch_id: String },
    ApprovalScopeMismatch { approval_id: String, field: &'static str, expected: String, actual: String },
    ApprovalDecisionMissing { approval_id: String, patch_id: String },
    WalAppendFailed { patch_id: String, reason: String },
    InvalidProposal { reason: String },
}


// ---------------------------------------------------------------------------
// Citations against sources and frames.
// ---------------------------------------------------------------------------

/// What is wrong with a citation, in the order it is checked.
#[derive(Debug, Clone, Copy, PartialEq, Eq, Structural)]
pub enum CitationFault {
    EmptyRange,
    SourceMissing,
    OtherWorkspace,
    Tombstoned,
    NotVisible,
    WrongScope,
    BeyondSource,
    FrameMissing,
    FrameHashMismatch,
    BeyondFrame,
}

pub open spec fn fault_reason(f: CitationFault) -> Seq<char> {
    match f {
        CitationFault::EmptyRange => "byte range must be non-empty"@,
        CitationFault::SourceMissing => "source does not exist"@,
        CitationFault::OtherWorkspace => "source belongs to another workspace"@,
        CitationFault::Tombstoned => Seq::<char>::empty(),
        CitationFault::NotVisible => "source is not visible to new citations"@,
        CitationFault::WrongScope => "source permission scope is not valid for source.ingest"@,
        CitationFault::BeyondSource => "byte range exceeds source size"@,
        CitationFault::FrameMissing => "frame does not exist"@,
        CitationFault::FrameHashMismatch => "frame source hash does not match source manifest"@,
        CitationFault::BeyondFrame => "byte range exceeds frame range"@,
    }
}

/// The permission scope of sources that may be cited.
pub open spec fn ingest_scope() -> Seq<char> {
    "capability:file.read:source.ingest"@
}

/// Index of the first source with id `id`.
pub open spec fn find_source(s: Seq<SourceManifest>, id: Seq<char>) -> Option<int>
    decreases s.len(),
{
    if s.len() == 0 {
        None
    } else if s[0].source_id@ == id {
        Some(0)
    } else {
        match find_source(s.drop_first(), id) {
            Some(i) => Some(i + 1),
            None => None,
        }
    }
}

proof fn lemma_find_source(s: Seq<SourceManifest>, id: Seq<char>)
    ensures
        find_source(s, id) matches Some(i) ==> 0 <= i < s.len() && s[i].source_id@ == id,
        find_source(s, id) is None ==> forall|j: int| 0 <= j < s.len() ==> (#[trigger] s[j]).source_id@ != id,
    decreases s.len(),
{
    if s.len() > 0 {
        lemma_find_source(s.drop_first(), id);
        if s[0].source_id@ != id {
            assert forall|j: int| 0 < j < s.len() implies s.drop_first()[j - 1] == s[j] by {}
        }
    }
}

/// Index of the first frame with id `id` of source `source_id`.
pub open spec fn find_frame(s: Seq<ParsedFrame>, id: Seq<char>, source_id: Seq<char>) -> Option<int>
    decreases s.len(),
{
    if s.len() == 0 {
        None
    } else if s[0].frame_id@ == id && s[0].source_id@ == source_id {
        Some(0)
    } else {
        match find_frame(s.drop_first(), id, source_id) {
            Some(i) => Some(i + 1),
            None => None,
        }
    }
}

proof fn lemma_find_frame(s: Seq<ParsedFrame>, id: Seq<char>, source_id: Seq<char>)
    ensures
        find_frame(s, id, source_id) matches Some(i) ==> 0 <= i < s.len() && s[i].frame_id@ == id && s[i].source_id@
            == source_id,
    decreases s.len(),
{
    if s.len() > 0 {
        lemma_find_frame(s.drop_first(), id, source_id);
    }
}

fn find_source_exec(s: &[SourceManifest], id: &str) -> (r: Option<usize>)
    ensures
        r matches Some(i) ==> find_source(s@, id@) == Some(i as int),
        r is None ==> find_source(s@, id@) is None,
{
    let mut i: usize = 0;
    assert(s@.skip(0) =~= s@);
    while i < s.len()
        invariant
            i <= s@.len(),
            find_source(s@, id@) == match find_source(s@.skip(i as int), id@) {
                Some(k) => Some(k + i),
                None => None::<int>,
            },
        decreases s@.len() - i,
    {
        assert(s@.skip(i as int).drop_first() =~= s@.skip(i + 1));
        if str_eq(s[i].source_id.as_str(), id) {
            return Some(i);
        }
        i = i + 1;
    }
    None
}

fn find_frame_exec(s: &[ParsedFrame], id: &str, source_id: &str) -> (r: Option<usize>)
    ensures
        r matches Some(i) ==> find_frame(s@, id@, source_id@) == Some(i as int),
        r is None ==> find_frame(s@, id@, source_id@) is None,
{
    let mut i: usize = 0;
    assert(s@.skip(0) =~= s@);
    while i < s.len()
        invariant
            i <= s@.len(),
            find_frame(s@, id@, source_id@) == match find_frame(s@.skip(i as int), id@, source_id@) {
                Some(k) => Some(k + i),
                None => None::<int>,
            },
        decreases s@.len() - i,
    {
        assert(s@.skip(i as int).drop_first() =~= s@.skip(i + 1));
        if str_eq(s[i].frame_id.as_str(), id) && str_eq(s[i].source_id.as_str(), source_id) {
            return Some(i);
        }
        i = i + 1;
    }
    None
}

/// What is wrong with citation `c` of a patch to workspace `ws`, if anything.
pub open spec fn citation_fault(c: Citation, ws: Seq<char>, sources: Seq<SourceManifest>, frames: Seq<ParsedFrame>) -> Option<
    CitationFault,
> {
    if c.byte_range.start >= c.byte_range.end {
        Some(CitationFault::EmptyRange)
    } else {
        match find_source(sources, c.source_id@) {
            None => Some(CitationFault::SourceMissing),
            Some(si) => {
                let s = sources[si];
                if s.workspace_id@ != ws {
                    Some(CitationFault::OtherWorkspace)
                } else if s.visibility == SourceVisibility::Tombstoned || s.tombstoned_at is Some {
                    Some(CitationFault::Tombstoned)
                } else if s.visibility != SourceVisibility::Visible {
                    Some(CitationFault::NotVisible)
                } else if s.permission_scope@ != ingest_scope() {
                    Some(CitationFault::WrongScope)
                } else if c.byte_range.end > s.size {
                    Some(CitationFault::BeyondSource)
                } else {
                    match c.frame_id {
                        None => None,
                        Some(fid) => match find_frame(frames, fid@, c.source_id@) {
                            None => Some(CitationFault::FrameMissing),
                            Some(fi) => {
                                let f = frames[fi];
                                if f.source_hash@ != s.raw_content_hash@ {
                                    Some(CitationFault::FrameHashMismatch)
                                } else if c.byte_range.start < f.byte_range.start || c.byte_range.end
                                    > f.byte_range.end {
                                    Some(CitationFault::BeyondFrame)
                                } else {
                                    None
                                }
                            },
                        },
                    }
                }
            },
        }
    }
}

/// The error a citation fault is reported as.
pub open spec fn fault_error(c: Citation, f: CitationFault, e: WikiPatchError) -> bool {
    if f == CitationFault::Tombstoned {
        e == WikiPatchError::TombstonedSource { citation_id: c.citation_id, source_id: c.source_id }
    } else {
        e matches WikiPatchError::InvalidCitation { citation_id, reason } && citation_id == c.citation_id && reason@
            == fault_reason(f)
    }
}

fn fault_to_error(c: &Citation, f: CitationFault) -> (e: WikiPatchError)
    ensures
        fault_error(*c, f, e),
{
    let reason = match f {
        CitationFault::Tombstoned => {
            return WikiPatchError::TombstonedSource {
                citation_id: c.citation_id.clone(),
                source_id: c.source_id.clone(),
            };
        },
        CitationFault::EmptyRange => "byte range must be non-empty",
        CitationFault::SourceMissing => "source does not exist",
        CitationFault::OtherWorkspace => "source belongs to another workspace",
        CitationFault::NotVisible => "source is not visible to new citations",
        CitationFault::WrongScope => "source permission scope is not valid for source.ingest",
        CitationFault::BeyondSource => "byte range exceeds source size",
        CitationFault::FrameMissing => "frame does not exist",
        CitationFault::FrameHashMismatch => "frame source hash does not match source manifest",
        CitationFault::BeyondFrame => "byte range exceeds frame range",
    };
    WikiPatchError::InvalidCitation { citation_id: c.citation_id.clone(), reason: owned(reason) }
}

/// Checks one citation against the sources and frames.
pub fn check_citation(c: &Citation, workspace_id: &str, sources: &[SourceManifest], frames: &[ParsedFrame]) -> (r: Option<
    CitationFault,
>)
    ensures
        r == citation_fault(*c, workspace_id@, sources@, frames@),
{
    if c.byte_range.start >= c.byte_range.end {
        return Some(CitationFault::EmptyRange);
    }
    let si = match find_source_exec(sources, c.source_id.as_str()) {
        Some(i) => i,
        None => {
            return Some(CitationFault::SourceMissing);
        },
    };
    proof { lemma_find_source(sources@, c.source_id@); }
    let s = &sources[si];
    if !str_eq(s.workspace_id.as_str(), workspace_id) {
        return Some(CitationFault::OtherWorkspace);
    }
    if s.visibility == SourceVisibility::Tombstoned || s.tombstoned_at.is_some() {
        return Some(CitationFault::Tombstoned);
    }
    if s.visibility != SourceVisibility::Visible {
        return Some(CitationFault::NotVisible);
    }
    proof { reveal_strlit("capability:file.read:source.ingest"); }
    if !str_eq(s.permission_scope.as_str(), "capability:file.read:source.ingest") {
        return Some(CitationFault::WrongScope);
    }
    if c.byte_range.end as u64 > s.size {
        return Some(CitationFault::BeyondSource);
    }
    match &c.frame_id {
        None => None,
        Some(fid) => {
            let fi = match find_frame_exec(frames, fid.as_str(), c.source_id.as_str()) {
                Some(i) => i,
                None => {
                    return Some(CitationFault::FrameMissing);
                },
            };
            proof { lemma_find_frame(frames@, fid@, c.source_id@); }
            let f = &frames[fi];
            if !str_eq(f.source_hash.as_str(), s.raw_content_hash.as_str()) {
                Some(CitationFault::FrameHashMismatch)
            } else if c.byte_range.start < f.byte_range.start || c.byte_range.end > f.byte_range.end {
                Some(CitationFault::BeyondFrame)
            } else {
                None
            }
        },
    }
}

/// The first citation (index and fault) that does not check out.
pub open spec fn first_citation_fault(
    cs: Seq<Citation>,
    ws: Seq<char>,
    sources: Seq<SourceManifest>,
    frames: Seq<ParsedFrame>,
) -> Option<(int, CitationFault)>
    decreases cs.len(),
{
    if cs.len() == 0 {
        None
    } else {
        match citation_fault(cs[0], ws, sources, frames) {
            Some(f) => Some((0, f)),
            None => match first_citation_fault(cs.drop_first(), ws, sources, frames) {
                Some((i, f)) => Some((i + 1, f)),
                None => None,
            },
        }
    }
}

proof fn lemma_first_citation_fault(cs: Seq<Citation>, ws: Seq<char>, sources: Seq<SourceManifest>, frames: Seq<ParsedFrame>)
    ensures
        first_citation_fault(cs, ws, sources, frames) matches Some((i, f)) ==> 0 <= i < cs.len()
            && citation_fault(cs[i], ws, sources, frames) == Some(f),
    decreases cs.len(),
{
    if cs.len() > 0 {
        lemma_first_citation_fault(cs.drop_first(), ws, sources, frames);
    }
}


// ---------------------------------------------------------------------------
// The shape of a proposal: claims and citations that refer to each other.
// ---------------------------------------------------------------------------

pub open spec fn distinct_claims(cs: Seq<Claim>) -> bool {
    forall|i: int, j: int| 0 <= i < j < cs.len() ==> (#[trigger] cs[i]).claim_id@ != (#[trigger] cs[j]).claim_id@
}

pub open spec fn distinct_citations(cs: Seq<Citation>) -> bool {
    forall|i: int, j: int| 0 <= i < j < cs.len() ==> (#[trigger] cs[i]).citation_id@ != (#[trigger] cs[j]).citation_id@
}

pub open spec fn has_text(s: Seq<String>, t: Seq<char>) -> bool {
    exists|i: int| 0 <= i < s.len() && (#[trigger] s[i])@ == t
}

/// Index of the first citation with id `id`.
pub open spec fn find_citation(s: Seq<Citation>, id: Seq<char>) -> Option<int>
    decreases s.len(),
{
    if s.len() == 0 {
        None
    } else if s[0].citation_id@ == id {
        Some(0)
    } else {
        match find_citation(s.drop_first(), id) {
            Some(i) => Some(i + 1),
            None => None,
        }
    }
}

/// Index of the first claim with id `id`.
pub open spec fn find_claim(s: Seq<Claim>, id: Seq<char>) -> Option<int>
    decreases s.len(),
{
    if s.len() == 0 {
        None
    } else if s[0].claim_id@ == id {
        Some(0)
    } else {
        match find_claim(s.drop_first(), id) {
            Some(i) => Some(i + 1),
            None => None,
        }
    }
}

proof fn lemma_find_citation(s: Seq<Citation>, id: Seq<char>)
    ensures
        find_citation(s, id) matches Some(i) ==> 0 <= i < s.len() && s[i].citation_id@ == id,
    decreases s.len(),
{
    if s.len() > 0 {
        lemma_find_citation(s.drop_first(), id);
    }
}

proof fn lemma_find_claim(s: Seq<Claim>, id: Seq<char>)
    ensures
        find_claim(s, id) matches Some(i) ==> 0 <= i < s.len() && s[i].claim_id@ == id,
    decreases s.len(),
{
    if s.len() > 0 {
        lemma_find_claim(s.drop_first(), id);
    }
}

fn find_citation_exec(s: &Vec<Citation>, id: &str) -> (r: Option<usize>)
    ensures
        r matches Some(i) ==> find_citation(s@, id@) == Some(i as int),
        r is None ==> find_citation(s@, id@) is None,
{
    let mut i: usize = 0;
    assert(s@.skip(0) =~= s@);
    while i < s.len()
        invariant
            i <= s@.len(),
            find_citation(s@, id@) == match find_citation(s@.skip(i as int), id@) {
                Some(k) => Some(k + i),
                None => None::<int>,
            },
        decreases s@.len() - i,
    {
        assert(s@.skip(i as int).drop_first() =~= s@.skip(i + 1));
        if str_eq(s[i].citation_id.as_str(), id) {
            return Some(i);
        }
        i = i + 1;
    }
    None
}

fn find_claim_exec(s: &Vec<Claim>, id: &str) -> (r: Option<usize>)
    ensures
        r matches Some(i) ==> find_claim(s@, id@) == Some(i as int),
        r is None ==> find_claim(s@, id@) is None,
{
    let mut i: usize = 0;
    assert(s@.skip(0) =~= s@);
    while i < s.len()
        invariant
            i <= s@.len(),
            find_claim(s@, id@) == match find_claim(s@.skip(i as int), id@) {
                Some(k) => Some(k + i),
                None => None::<int>,
            },
        decreases s@.len() - i,
    {
        assert(s@.skip(i as int).drop_first() =~= s@.skip(i + 1));
        if str_eq(s[i].claim_id.as_str(), id) {
            return Some(i);
        }
        i = i + 1;
    }
    None
}

fn has_text_exec(s: &Vec<String>, t: &str) -> (r: bool)
    ensures
        r == has_text(s@, t@),
{
    let mut i: usize = 0;
    while i < s.len()
        invariant
            i <= s@.len(),
            forall|j: int| 0 <= j < i ==> (#[trigger] s@[j])@ != t@,
        decreases s@.len() - i,
    {
        if str_eq(s[i].as_str(), t) {
            return true;
        }
        i = i + 1;
    }
    false
}

fn claims_distinct_exec(cs: &Vec<Claim>) -> (r: bool)
    ensures
        r == distinct_claims(cs@),
{
    let mut i: usize = 0;
    while i < cs.len()
        invariant
            i <= cs@.len(),
            forall|a: int, b: int| 0 <= a < b < cs@.len() && a < i ==> (#[trigger] cs@[a]).claim_id@ != (#[trigger] cs@[b]).claim_id@,
        decreases cs@.len() - i,
    {
        let mut j: usize = i + 1;
        while j < cs.len()
            invariant
                i < cs@.len(),
                i + 1 <= j <= cs@.len(),
                forall|a: int, b: int| 0 <= a < b < cs@.len() && a < i ==> (#[trigger] cs@[a]).claim_id@ != (#[trigger] cs@[b]).claim_id@,
                forall|b: int| i < b < j ==> cs@[i as int].claim_id@ != (#[trigger] cs@[b]).claim_id@,
            decreases cs@.len() - j,
        {
            if str_eq(cs[i].claim_id.as_str(), cs[j].claim_id.as_str()) {
                return false;
            }
            j = j + 1;
        }
        i = i + 1;
    }
    true
}

fn citations_distinct_exec(cs: &Vec<Citation>) -> (r: bool)
    ensures
        r == distinct_citations(cs@),
{
    let mut i: usize = 0;
    while i < cs.len()
        invariant
            i <= cs@.len(),
            forall|a: int, b: int| 0 <= a < b < cs@.len() && a < i ==> (#[trigger] cs@[a]).citation_id@ != (#[trigger] cs@[b]).citation_id@,
        decreases cs@.len() - i,
    {
        let mut j: usize = i + 1;
        while j < cs.len()
            invariant
                i < cs@.len(),
                i + 1 <= j <= cs@.len(),
                forall|a: int, b: int| 0 <= a < b < cs@.len() && a < i ==> (#[trigger] cs@[a]).citation_id@ != (#[trigger] cs@[b]).citation_id@,
                forall|b: int| i < b < j ==> cs@[i as int].citation_id@ != (#[trigger] cs@[b]).citation_id@,
            decreases cs@.len() - j,
        {
            if str_eq(cs[i].citation_id.as_str(), cs[j].citation_id.as_str()) {
                return false;
            }
            j = j + 1;
        }
        i = i + 1;
    }
    true
}

/// The first of a claim's citation ids that is missing or owned by another claim.
pub open spec fn ids_problem(owner: Seq<char>, ids: Seq<String>, cits: Seq<Citation>) -> Option<Seq<char>>
    decreases ids.len(),
{
    if ids.len() == 0 {
        None
    } else {
        match find_citation(cits, ids[0]@) {
            None => Some("claim "@ + owner + " references missing citation "@ + ids[0]@),
            Some(k) => if cits[k].claim_id@ != owner {
                Some("claim "@ + owner + " references citation "@ + ids[0]@ + " owned by claim "@ + cits[k].claim_id@)
            } else {
                ids_problem(owner, ids.drop_first(), cits)
            },
        }
    }
}

pub open spec fn claim_problem(c: Claim, page_id: Seq<char>, cits: Seq<Citation>) -> Option<Seq<char>> {
    if c.page_id@ != page_id {
        Some("claim "@ + c.claim_id@ + " targets page "@ + c.page_id@ + ", expected "@ + page_id)
    } else if c.citation_ids@.len() == 0 {
        Some("claim "@ + c.claim_id@ + " must declare at least one citation"@)
    } else {
        ids_problem(c.claim_id@, c.citation_ids@, cits)
    }
}

pub open spec fn claims_problem(cs: Seq<Claim>, page_id: Seq<char>, cits: Seq<Citation>) -> Option<Seq<char>>
    decreases cs.len(),
{
    if cs.len() == 0 {
        None
    } else {
        match claim_problem(cs[0], page_id, cits) {
            Some(m) => Some(m),
            None => claims_problem(cs.drop_first(), page_id, cits),
        }
    }
}

pub open spec fn citation_problem(c: Citation, claims: Seq<Claim>) -> Option<Seq<char>> {
    match find_claim(claims, c.claim_id@) {
        None => Some("citation "@ + c.citation_id@ + " targets missing claim "@ + c.claim_id@),
        Some(k) => if !has_text(claims[k].citation_ids@, c.citation_id@) {
            Some("citation "@ + c.citation_id@ + " is not declared by claim "@ + c.claim_id@)
        } else {
            None
        },
    }
}

pub open spec fn citations_problem(cits: Seq<Citation>, claims: Seq<Claim>) -> Option<Seq<char>>
    decreases cits.len(),
{
    if cits.len() == 0 {
        None
    } else {
        match citation_problem(cits[0], claims) {
            Some(m) => Some(m),
            None => citations_problem(cits.drop_first(), claims),
        }
    }
}

/// What is wrong with the shape of a proposal, if anything: the message of
/// the first rule it breaks.
pub open spec fn shape_problem(p: WikiPatchProposal) -> Option<Seq<char>> {
    if page_key(p.page).len() == 0 {
        Some("page_id must not be empty"@)
    } else if !distinct_claims(p.claims@) {
        Some("claim ids must be unique"@)
    } else if !distinct_citations(p.citations@) {
        Some("citation ids must be unique"@)
    } else {
        match claims_problem(p.claims@, page_key(p.page), p.citations@) {
            Some(m) => Some(m),
            None => citations_problem(p.citations@, p.claims@),
        }
    }
}

fn cat3(a: &str, b: &str, c: &str) -> (r: String)
    ensures
        r@ == a@ + b@ + c@,
{
    crate::text::concat3(a, b, c)
}

fn claim_ids_check(owner: &str, ids: &Vec<String>, cits: &Vec<Citation>) -> (r: Option<String>)
    ensures
        r matches Some(m) ==> ids_problem(owner@, ids@, cits@) == Some(m@),
        r is None ==> ids_problem(owner@, ids@, cits@) is None,
{
    let mut i: usize = 0;
    assert(ids@.skip(0) =~= ids@);
    while i < ids.len()
        invariant
            i <= ids@.len(),
            ids_problem(owner@, ids@, cits@) == ids_problem(owner@, ids@.skip(i as int), cits@),
        decreases ids@.len() - i,
    {
        assert(ids@.skip(i as int).drop_first() =~= ids@.skip(i + 1));
        assert(ids@.skip(i as int)[0] == ids@[i as int]);
        let id = ids[i].as_str();
        match find_citation_exec(cits, id) {
            None => {
                let head = cat3("claim ", owner, " references missing citation ");
                return Some(concat2(head.as_str(), id));
            },
            Some(k) => {
                proof { lemma_find_citation(cits@, id@); }
                if !str_eq(cits[k].claim_id.as_str(), owner) {
                    let head = cat3("claim ", owner, " references citation ");
                    let mid = cat3(head.as_str(), id, " owned by claim ");
                    return Some(concat2(mid.as_str(), cits[k].claim_id.as_str()));
                }
            },
        }
        i = i + 1;
    }
    None
}

fn claims_check(cs: &Vec<Claim>, page_id: &str, cits: &Vec<Citation>) -> (r: Option<String>)
    ensures
        r matches Some(m) ==> claims_problem(cs@, page_id@, cits@) == Some(m@),
        r is None ==> claims_problem(cs@, page_id@, cits@) is None,
{
    let mut i: usize = 0;
    assert(cs@.skip(0) =~= cs@);
    while i < cs.len()
        invariant
            i <= cs@.len(),
            claims_problem(cs@, page_id@, cits@) == claims_problem(cs@.skip(i as int), page_id@, cits@),
        decreases cs@.len() - i,
    {
        assert(cs@.skip(i as int).drop_first() =~= cs@.skip(i + 1));
        assert(cs@.skip(i as int)[0] == cs@[i as int]);
        let c = &cs[i];
        if !str_eq(c.page_id.as_str(), page_id) {
            let head = cat3("claim ", c.claim_id.as_str(), " targets page ");
            let mid = cat3(head.as_str(), c.page_id.as_str(), ", expected ");
            return Some(concat2(mid.as_str(), page_id));
        }
        if c.citation_ids.len() == 0 {
            return Some(cat3("claim ", c.claim_id.as_str(), " must declare at least one citation"));
        }
        match claim_ids_check(c.claim_id.as_str(), &c.citation_ids, cits) {
            Some(m) => {
                return Some(m);
            },
            None => {},
        }
        i = i + 1;
    }
    None
}

fn citations_check(cits: &Vec<Citation>, claims: &Vec<Claim>) -> (r: Option<String>)
    ensures
        r matches Some(m) ==> citations_problem(cits@, claims@) == Some(m@),
        r is None ==> citations_problem(cits@, claims@) is None,
{
    let mut i: usize = 0;
    assert(cits@.skip(0) =~= cits@);
    while i < cits.len()
        invariant
            i <= cits@.len(),
            citations_problem(cits@, claims@) == citations_problem(cits@.skip(i as int), claims@),
        decreases cits@.len() - i,
    {
        assert(cits@.skip(i as int).drop_first() =~= cits@.skip(i + 1));
        assert(cits@.skip(i as int)[0] == cits@[i as int]);
        let c = &cits[i];
        match find_claim_exec(claims, c.claim_id.as_str()) {
            None => {
                let head = cat3("citation ", c.citation_id.as_str(), " targets missing claim ");
                return Some(concat2(head.as_str(), c.claim_id.as_str()));
            },
            Some(k) => {
                proof { lemma_find_claim(claims@, c.claim_id@); }
                if !has_text_exec(&claims[k].citation_ids, c.citation_id.as_str()) {
                    let head = cat3("citation ", c.citation_id.as_str(), " is not declared by claim ");
                    return Some(concat2(head.as_str(), c.claim_id.as_str()));
                }
            },
        }
        i = i + 1;
    }
    None
}

/// Checks the shape of a proposal; the message of the first rule it breaks.
pub fn check_proposal_shape(p: &WikiPatchProposal) -> (r: Option<String>)
    ensures
        r matches Some(m) ==> shape_problem(*p) == Some(m@),
        r is None ==> shape_problem(*p) is None,
{
    let page_id = p.page.page_id();
    if page_id.is_empty() {
        proof { reveal_strlit("page_id must not be empty"); }
        return Some(owned("page_id must not be empty"));
    }
    if !claims_distinct_exec(&p.claims) {
        return Some(owned("claim ids must be unique"));
    }
    if !citations_distinct_exec(&p.citations) {
        return Some(owned("citation ids must be unique"));
    }
    match claims_check(&p.claims, page_id, &p.citations) {
        Some(m) => Some(m),
        None => citations_check(&p.citations, &p.claims),
    }
}


// ---------------------------------------------------------------------------
// Approval.
// ---------------------------------------------------------------------------

/// Why an approval does not let the patch through, if it does not.
pub open spec fn approval_refusal(p: WikiPatchProposal, a: Option<ApprovalRequest>) -> Option<WikiPatchError> {
    match a {
        None => Some(WikiPatchError::ApprovalRequired { patch_id: p.patch_id }),
        Some(a) => if a.patch_id@ != p.patch_id@ {
            Some(WikiPatchError::ApprovalPatchMismatch {
                approval_id: a.approval_id,
                expected_patch_id: p.patch_id,
                actual_patch_id: a.patch_id,
            })
        } else if a.workspace_id@ != p.workspace_id@ {
            Some(WikiPatchError::ApprovalScopeMismatch {
                approval_id: a.approval_id,
                field: "workspace_id",
                expected: p.workspace_id,
                actual: a.workspace_id,
            })
        } else if a.requested_by@ != p.actor_id@ {
            Some(WikiPatchError::ApprovalScopeMismatch {
                approval_id: a.approval_id,
                field: "requested_by",
                expected: p.actor_id,
                actual: a.requested_by,
            })
        } else if a.status != ApprovalStatus::Approved {
            Some(WikiPatchError::ApprovalNotGranted { approval_id: a.approval_id, patch_id: a.patch_id, status: a.status })
        } else if (match a.decided_by {
            None => true,
            Some(d) => d@.len() == 0,
        }) || a.decided_at is None {
            Some(WikiPatchError::ApprovalDecisionMissing { approval_id: a.approval_id, patch_id: a.patch_id })
        } else {
            None
        }
    }
}

/// Checks that the approval is an approved, decided approval of this patch,
/// requested by its actor in its workspace.
pub fn check_approval(p: &WikiPatchProposal, a: &Option<ApprovalRequest>) -> (r: Option<WikiPatchError>)
    ensures
        r == approval_refusal(*p, *a),
{
    let a = match a {
        None => {
            return Some(WikiPatchError::ApprovalRequired { patch_id: p.patch_id.clone() });
        },
        Some(a) => a,
    };
    if !str_eq(a.patch_id.as_str(), p.patch_id.as_str()) {
        return Some(WikiPatchError::ApprovalPatchMismatch {
            approval_id: a.approval_id.clone(),
            expected_patch_id: p.patch_id.clone(),
            actual_patch_id: a.patch_id.clone(),
        });
    }
    if !str_eq(a.workspace_id.as_str(), p.workspace_id.as_str()) {
        return Some(WikiPatchError::ApprovalScopeMismatch {
            approval_id: a.approval_id.clone(),
            field: "workspace_id",
            expected: p.workspace_id.clone(),
            actual: a.workspace_id.clone(),
        });
    }
    if !str_eq(a.requested_by.as_str(), p.actor_id.as_str()) {
        return Some(WikiPatchError::ApprovalScopeMismatch {
            approval_id: a.approval_id.clone(),
            field: "requested_by",
            expected: p.actor_id.clone(),
            actual: a.requested_by.clone(),
        });
    }
    if a.status != ApprovalStatus::Approved {
        return Some(WikiPatchError::ApprovalNotGranted {
            approval_id: a.approval_id.clone(),
            patch_id: a.patch_id.clone(),
            status: a.status,
        });
    }
    let undecided = match &a.decided_by {
        None => true,
        Some(d) => d.as_str().is_empty(),
    };
    if undecided || a.decided_at.is_none() {
        return Some(WikiPatchError::ApprovalDecisionMissing {
            approval_id: a.approval_id.clone(),
            patch_id: a.patch_id.clone(),
        });
    }
    None
}


// ---------------------------------------------------------------------------
// The store.
// ---------------------------------------------------------------------------

pub open spec fn same_marker(a: RollbackMarker, b: RollbackMarker) -> bool {
    &&& a.rollback_marker_id == b.rollback_marker_id
    &&& a.patch_id == b.patch_id
    &&& a.transaction_id == b.transaction_id
    &&& a.previous_revision == b.previous_revision
    &&& a.affected_page_ids@ == b.affected_page_ids@
    &&& a.affected_claim_ids@ == b.affected_claim_ids@
    &&& a.affected_citation_ids@ == b.affected_citation_ids@
    &&& a.created_at == b.created_at
}

pub open spec fn same_transaction(a: WikiPatchTransaction, b: WikiPatchTransaction) -> bool {
    &&& a.transaction_id == b.transaction_id
    &&& a.patch_id == b.patch_id
    &&& a.workspace_id == b.workspace_id
    &&& a.actor_id == b.actor_id
    &&& a.base_revision == b.base_revision
    &&& a.committed_revision == b.committed_revision
    &&& a.page_id == b.page_id
    &&& a.claim_ids@ == b.claim_ids@
    &&& a.citation_ids@ == b.citation_ids@
    &&& a.approval_id == b.approval_id
    &&& match (a.rollback_marker, b.rollback_marker) {
        (Some(x), Some(y)) => same_marker(x, y),
        (None, None) => true,
        _ => false,
    }
    &&& a.audit_record_id == b.audit_record_id
    &&& a.risk_summary == b.risk_summary
    &&& a.committed_at == b.committed_at
}

impl Clone for RollbackMarker {
    fn clone(&self) -> (r: Self)
        ensures
            same_marker(r, *self),
    {
        RollbackMarker {
            rollback_marker_id: self.rollback_marker_id.clone(),
            patch_id: self.patch_id.clone(),
            transaction_id: self.transaction_id.clone(),
            previous_revision: self.previous_revision,
            affected_page_ids: clone_strings(&self.affected_page_ids),
            affected_claim_ids: clone_strings(&self.affected_claim_ids),
            affected_citation_ids: clone_strings(&self.affected_citation_ids),
            created_at: self.created_at,
        }
    }
}

impl Clone for WikiPatchTransaction {
    fn clone(&self) -> (r: Self)
        ensures
            same_transaction(r, *self),
    {
        WikiPatchTransaction {
            transaction_id: self.transaction_id.clone(),
            patch_id: self.patch_id.clone(),
            workspace_id: self.workspace_id.clone(),
            actor_id: self.actor_id.clone(),
            base_revision: self.base_revision,
            committed_revision: self.committed_revision,
            page_id: self.page_id.clone(),
            claim_ids: clone_strings(&self.claim_ids),
            citation_ids: clone_strings(&self.citation_ids),
            approval_id: self.approval_id.clone(),
            rollback_marker: match &self.rollback_marker {
                Some(m) => Some(m.clone()),
                None => None,
            },
            audit_record_id: self.audit_record_id.clone(),
            risk_summary: self.risk_summary.clone(),
            committed_at: self.committed_at,
        }
    }
}

/// Revision, pages, claims, citations and their registry, transactions,
/// rollback markers and audit records of a wiki, and whether its index is
/// fresh.
#[derive(Debug)]
pub struct WikiPatchStore {
    current_revision: u64,
    pages: KeyedMap<TypedPage>,
    claims: KeyedMap<Claim>,
    citations: KeyedMap<Citation>,
    citation_registry: KeyedMap<CitationRegistryEntry>,
    transactions: KeyedMap<WikiPatchTransaction>,
    rollback_markers: KeyedMap<RollbackMarker>,
    audit_records: Vec<AuditRecord>,
    index_status: WikiIndexStatus,
}

/// Claims keyed by id, inserted in order.
pub open spec fn insert_claims(m: Map<Seq<char>, Claim>, cs: Seq<Claim>) -> Map<Seq<char>, Claim>
    decreases cs.len(),
{
    if cs.len() == 0 {
        m
    } else {
        insert_claims(m, cs.drop_last()).insert(cs.last().claim_id@, cs.last())
    }
}

/// Citations keyed by id, inserted in order.
pub open spec fn insert_citations(m: Map<Seq<char>, Citation>, cs: Seq<Citation>) -> Map<Seq<char>, Citation>
    decreases cs.len(),
{
    if cs.len() == 0 {
        m
    } else {
        insert_citations(m, cs.drop_last()).insert(cs.last().citation_id@, cs.last())
    }
}

pub open spec fn registry_entry(c: Citation) -> CitationRegistryEntry {
    CitationRegistryEntry {
        citation_id: c.citation_id,
        claim_id: c.claim_id,
        source_id: c.source_id,
        frame_id: c.frame_id,
        byte_range: c.byte_range,
    }
}

/// Registry entries of citations keyed by id, inserted in order.
pub open spec fn insert_entries(m: Map<Seq<char>, CitationRegistryEntry>, cs: Seq<Citation>) -> Map<
    Seq<char>,
    CitationRegistryEntry,
>
    decreases cs.len(),
{
    if cs.len() == 0 {
        m
    } else {
        insert_entries(m, cs.drop_last()).insert(cs.last().citation_id@, registry_entry(cs.last()))
    }
}

/// The ids of the claims, in order.
pub open spec fn ids_of_claims(ids: Seq<String>, cs: Seq<Claim>) -> bool {
    ids.len() == cs.len() && forall|j: int| 0 <= j < cs.len() ==> (#[trigger] ids[j])@ == cs[j].claim_id@
}

/// The ids of the citations, in order.
pub open spec fn ids_of_citations(ids: Seq<String>, cs: Seq<Citation>) -> bool {
    ids.len() == cs.len() && forall|j: int| 0 <= j < cs.len() ==> (#[trigger] ids[j])@ == cs[j].citation_id@
}

/// The id of the transaction that commits `patch_id` as revision `rev`.
pub open spec fn transaction_id_text(rev: u64, patch_id: Seq<char>) -> Seq<char> {
    "wiki-txn-"@ + decimal(rev as nat) + "-"@ + patch_id
}

/// Whether a patch is refused by a store at revision `rev`.
pub open spec fn refused(rev: u64, p: WikiPatchProposal, a: Option<ApprovalRequest>, sources: Seq<SourceManifest>, frames: Seq<
    ParsedFrame,
>) -> bool {
    ||| p.base_revision != rev
    ||| shape_problem(p) is Some
    ||| approval_refusal(p, a) is Some
    ||| first_citation_fault(p.citations@, p.workspace_id@, sources, frames) is Some
}

/// The error a refused patch is answered with: the first check it fails, in
/// the order base revision, shape, approval, citations.
pub open spec fn refusal_error(
    rev: u64,
    p: WikiPatchProposal,
    a: Option<ApprovalRequest>,
    sources: Seq<SourceManifest>,
    frames: Seq<ParsedFrame>,
    e: WikiPatchError,
) -> bool {
    if p.base_revision != rev {
        e == WikiPatchError::BaseRevisionConflict {
            expected_revision: rev,
            actual_revision: p.base_revision,
            patch_id: p.patch_id,
        }
    } else if shape_problem(p) is Some {
        e matches WikiPatchError::InvalidProposal { reason } && reason@ == shape_problem(p)->0
    } else if approval_refusal(p, a) is Some {
        e == approval_refusal(p, a)->0
    } else {
        match first_citation_fault(p.citations@, p.workspace_id@, sources, frames) {
            Some((i, f)) => fault_error(p.citations@[i], f, e),
            None => false,
        }
    }
}

impl WikiPatchStore {
    pub closed spec fn revision(&self) -> u64 {
        self.current_revision
    }

    pub closed spec fn pages_map(&self) -> Map<Seq<char>, TypedPage> {
        self.pages@
    }

    pub closed spec fn claims_map(&self) -> Map<Seq<char>, Claim> {
        self.claims@
    }

    pub closed spec fn citations_map(&self) -> Map<Seq<char>, Citation> {
        self.citations@
    }

    pub closed spec fn registry_map(&self) -> Map<Seq<char>, CitationRegistryEntry> {
        self.citation_registry@
    }

    pub closed spec fn transactions_map(&self) -> Map<Seq<char>, WikiPatchTransaction> {
        self.transactions@
    }

    pub closed spec fn markers_map(&self) -> Map<Seq<char>, RollbackMarker> {
        self.rollback_markers@
    }

    pub closed spec fn audits(&self) -> Seq<AuditRecord> {
        self.audit_records@
    }

    pub closed spec fn index(&self) -> WikiIndexStatus {
        self.index_status
    }

    pub closed spec fn wf(&self) -> bool {
        &&& self.pages.wf()
        &&& self.claims.wf()
        &&& self.citations.wf()
        &&& self.citation_registry.wf()
        &&& self.transactions.wf()
        &&& self.rollback_markers.wf()
    }

    /// Two stores that hold the same wiki.
    pub open spec fn same_as(&self, other: WikiPatchStore) -> bool {
        &&& self.revision() == other.revision()
        &&& self.pages_map() == other.pages_map()
        &&& self.claims_map() == other.claims_map()
        &&& self.citations_map() == other.citations_map()
        &&& self.registry_map() == other.registry_map()
        &&& self.transactions_map() == other.transactions_map()
        &&& self.markers_map() == other.markers_map()
        &&& self.audits() == other.audits()
        &&& self.index() == other.index()
    }

    /// What committing `p` with approval `a` at `t` made of `old`, and the
    /// transaction `txn` it answered with.
    pub open spec fn committed_from(
        &self,
        old: WikiPatchStore,
        p: WikiPatchProposal,
        a: ApprovalRequest,
        txn: WikiPatchTransaction,
    ) -> bool {
        let rev = (old.revision() + 1) as u64;
        let tid = transaction_id_text(rev, p.patch_id@);
        &&& self.revision() == rev
        &&& self.pages_map() == old.pages_map().insert(page_key(p.page), p.page)
        &&& self.claims_map() == insert_claims(old.claims_map(), p.claims@)
        &&& self.citations_map() == insert_citations(old.citations_map(), p.citations@)
        &&& self.registry_map() == insert_entries(old.registry_map(), p.citations@)
        &&& self.transactions_map().dom() == old.transactions_map().dom().insert(p.patch_id@)
        &&& forall|k: Seq<char>| k != p.patch_id@ && old.transactions_map().contains_key(k) ==> #[trigger] self.transactions_map()[k]
            == old.transactions_map()[k]
        &&& same_transaction(self.transactions_map()[p.patch_id@], txn)
        &&& self.markers_map().dom() == old.markers_map().dom().insert(p.patch_id@)
        &&& forall|k: Seq<char>| k != p.patch_id@ && old.markers_map().contains_key(k) ==> #[trigger] self.markers_map()[k]
            == old.markers_map()[k]
        &&& (txn.rollback_marker matches Some(m) && same_marker(self.markers_map()[p.patch_id@], m))
        &&& self.audits().len() == old.audits().len() + 1
        &&& self.audits().drop_last() == old.audits()
        &&& self.index() == WikiIndexStatus::Stale
        &&& txn.transaction_id@ == tid
        &&& txn.patch_id == p.patch_id
        &&& txn.workspace_id == p.workspace_id
        &&& txn.actor_id == p.actor_id
        &&& txn.base_revision == p.base_revision
        &&& txn.committed_revision == rev
        &&& txn.page_id@ == page_key(p.page)
        &&& ids_of_claims(txn.claim_ids@, p.claims@)
        &&& ids_of_citations(txn.citation_ids@, p.citations@)
        &&& txn.approval_id == a.approval_id
        &&& txn.audit_record_id@ == "audit-"@ + tid
        &&& txn.risk_summary == p.risk_summary
        &&& (txn.rollback_marker matches Some(m) && {
            &&& m.rollback_marker_id@ == "rollback-"@ + tid
            &&& m.patch_id == p.patch_id
            &&& m.transaction_id@ == tid
            &&& m.previous_revision == p.base_revision
            &&& m.affected_page_ids@.len() == 1
            &&& m.affected_page_ids@[0]@ == page_key(p.page)
            &&& m.affected_claim_ids@ == txn.claim_ids@
            &&& m.affected_citation_ids@ == txn.citation_ids@
            &&& m.created_at == txn.committed_at
        })
        &&& {
            let rec = self.audits().last();
            &&& rec.audit_record_id == txn.audit_record_id
            &&& rec.transaction_id == txn.transaction_id
            &&& rec.patch_id == p.patch_id
            &&& rec.actor_id == p.actor_id
            &&& rec.workspace_id == p.workspace_id
            &&& rec.base_revision == p.base_revision
            &&& rec.committed_revision == rev
            &&& rec.rollback_marker_id@ == "rollback-"@ + tid
            &&& rec.recorded_at == txn.committed_at
        }
    }

    /// An empty wiki at `current_revision`, with a fresh index.
    pub fn new(current_revision: u64) -> (r: Self)
        ensures
            r.wf(),
            r.revision() == current_revision,
            r.pages_map() == Map::<Seq<char>, TypedPage>::empty(),
            r.claims_map() == Map::<Seq<char>, Claim>::empty(),
            r.citations_map() == Map::<Seq<char>, Citation>::empty(),
            r.registry_map() == Map::<Seq<char>, CitationRegistryEntry>::empty(),
            r.transactions_map() == Map::<Seq<char>, WikiPatchTransaction>::empty(),
            r.markers_map() == Map::<Seq<char>, RollbackMarker>::empty(),
            r.audits().len() == 0,
            r.index() == WikiIndexStatus::Fresh,
    {
        WikiPatchStore {
            current_revision,
            pages: KeyedMap::new(),
            claims: KeyedMap::new(),
            citations: KeyedMap::new(),
            citation_registry: KeyedMap::new(),
            transactions: KeyedMap::new(),
            rollback_markers: KeyedMap::new(),
            audit_records: Vec::new(),
            index_status: WikiIndexStatus::Fresh,
        }
    }

    pub fn current_revision(&self) -> (r: u64)
        ensures
            r == self.revision(),
    {
        self.current_revision
    }

    pub fn page(&self, page_id: &str) -> (r: Option<&TypedPage>)
        requires
            self.wf(),
        ensures
            self.pages_map().contains_key(page_id@) ==> r == Some(&self.pages_map()[page_id@]),
            !self.pages_map().contains_key(page_id@) ==> r is None,
    {
        self.pages.get(page_id)
    }

    pub fn claim(&self, claim_id: &str) -> (r: Option<&Claim>)
        requires
            self.wf(),
        ensures
            self.claims_map().contains_key(claim_id@) ==> r == Some(&self.claims_map()[claim_id@]),
            !self.claims_map().contains_key(claim_id@) ==> r is None,
    {
        self.claims.get(claim_id)
    }

    pub fn citation(&self, citation_id: &str) -> (r: Option<&Citation>)
        requires
            self.wf(),
        ensures
            self.citations_map().contains_key(citation_id@) ==> r == Some(&self.citations_map()[citation_id@]),
            !self.citations_map().contains_key(citation_id@) ==> r is None,
    {
        self.citations.get(citation_id)
    }

    pub fn citation_registry(&self) -> (r: &KeyedMap<CitationRegistryEntry>)
        requires
            self.wf(),
        ensures
            r.wf(),
            r@ == self.registry_map(),
    {
        &self.citation_registry
    }

    pub fn transaction(&self, patch_id: &str) -> (r: Option<&WikiPatchTransaction>)
        requires
            self.wf(),
        ensures
            self.transactions_map().contains_key(patch_id@) ==> r == Some(&self.transactions_map()[patch_id@]),
            !self.transactions_map().contains_key(patch_id@) ==> r is None,
    {
        self.transactions.get(patch_id)
    }

    pub fn rollback_marker(&self, patch_id: &str) -> (r: Option<&RollbackMarker>)
        requires
            self.wf(),
        ensures
            self.markers_map().contains_key(patch_id@) ==> r == Some(&self.markers_map()[patch_id@]),
            !self.markers_map().contains_key(patch_id@) ==> r is None,
    {
        self.rollback_markers.get(patch_id)
    }

    pub fn audit_records(&self) -> (r: &[AuditRecord])
        ensures
            r@ == self.audits(),
    {
        self.audit_records.as_slice()
    }

    pub fn index_status(&self) -> (r: WikiIndexStatus)
        ensures
            r == self.index(),
    {
        self.index_status
    }

    /// The first check a patch fails, or `None` when it may be committed.
    pub fn check_patch(
        &self,
        proposal: &WikiPatchProposal,
        approval: &Option<ApprovalRequest>,
        sources: &[SourceManifest],
        frames: &[ParsedFrame],
    ) -> (r: Option<WikiPatchError>)
        ensures
            r is None <==> !refused(self.revision(), *proposal, *approval, sources@, frames@),
            r matches Some(e) ==> refusal_error(self.revision(), *proposal, *approval, sources@, frames@, e),
    {
        if proposal.base_revision != self.current_revision {
            return Some(WikiPatchError::BaseRevisionConflict {
                expected_revision: self.current_revision,
                actual_revision: proposal.base_revision,
                patch_id: proposal.patch_id.clone(),
            });
        }
        match check_proposal_shape(proposal) {
            Some(reason) => {
                return Some(WikiPatchError::InvalidProposal { reason });
            },
            None => {},
        }
        match check_approval(proposal, approval) {
            Some(e) => {
                return Some(e);
            },
            None => {},
        }
        let cs = &proposal.citations;
        let mut i: usize = 0;
        let ghost ws = proposal.workspace_id@;
        assert(cs@.skip(0) =~= cs@);
        while i < cs.len()
            invariant
                i <= cs@.len(),
                cs@ == proposal.citations@,
                ws == proposal.workspace_id@,
                proposal.base_revision == self.revision(),
                shape_problem(*proposal) is None,
                approval_refusal(*proposal, *approval) is None,
                first_citation_fault(cs@, ws, sources@, frames@) == match first_citation_fault(cs@.skip(i as int), ws,
                    sources@, frames@) {
                    Some((k, f)) => Some((k + i, f)),
                    None => None::<(int, CitationFault)>,
                },
            decreases cs@.len() - i,
        {
            assert(cs@.skip(i as int).drop_first() =~= cs@.skip(i + 1));
            assert(cs@.skip(i as int)[0] == cs@[i as int]);
            match check_citation(&cs[i], proposal.workspace_id.as_str(), sources, frames) {
                Some(f) => {
                    return Some(fault_to_error(&cs[i], f));
                },
                None => {},
            }
            i = i + 1;
        }
        None
    }
}


/// The write-ahead record of committing `p` as revision `rev`.
pub open spec fn wal_record_of(w: WikiPatchWalRecord, rev: u64, p: WikiPatchProposal) -> bool {
    &&& w.transaction_id@ == transaction_id_text(rev, p.patch_id@)
    &&& w.patch_id == p.patch_id
    &&& w.workspace_id == p.workspace_id
    &&& w.actor_id == p.actor_id
    &&& w.committed_revision == rev
    &&& w.rollback_marker_id@ == "rollback-"@ + transaction_id_text(rev, p.patch_id@)
}

fn move_claims(claims: &mut KeyedMap<Claim>, cs: Vec<Claim>)
    requires
        old(claims).wf(),
    ensures
        final(claims).wf(),
        final(claims)@ == insert_claims(old(claims)@, cs@),
{
    let ghost all = cs@;
    let n = cs.len();
    let mut rest = cs;
    let mut k: usize = 0;
    assert(all.skip(0) =~= all);
    assert(all.take(0) =~= Seq::<Claim>::empty());
    while rest.len() > 0
        invariant
            claims.wf(),
            k <= all.len(),
            all.len() == n,
            rest@ == all.skip(k as int),
            claims@ == insert_claims(old(claims)@, all.take(k as int)),
        decreases rest@.len(),
    {
        let c = rest.remove(0);
        assert(all.take(k + 1).drop_last() =~= all.take(k as int));
        assert(rest@ =~= all.skip(k + 1));
        let id = c.claim_id.clone();
        claims.insert(id, c);
        k = k + 1;
    }
    assert(all.take(k as int) =~= all);
}

fn move_citations(
    citations: &mut KeyedMap<Citation>,
    registry: &mut KeyedMap<CitationRegistryEntry>,
    cs: Vec<Citation>,
)
    requires
        old(citations).wf(),
        old(registry).wf(),
    ensures
        final(citations).wf(),
        final(registry).wf(),
        final(citations)@ == insert_citations(old(citations)@, cs@),
        final(registry)@ == insert_entries(old(registry)@, cs@),
{
    let ghost all = cs@;
    let n = cs.len();
    let mut rest = cs;
    let mut k: usize = 0;
    assert(all.skip(0) =~= all);
    assert(all.take(0) =~= Seq::<Citation>::empty());
    while rest.len() > 0
        invariant
            citations.wf(),
            registry.wf(),
            k <= all.len(),
            all.len() == n,
            rest@ == all.skip(k as int),
            citations@ == insert_citations(old(citations)@, all.take(k as int)),
            registry@ == insert_entries(old(registry)@, all.take(k as int)),
        decreases rest@.len(),
    {
        let c = rest.remove(0);
        assert(all.take(k + 1).drop_last() =~= all.take(k as int));
        assert(rest@ =~= all.skip(k + 1));
        let entry = CitationRegistryEntry {
            citation_id: c.citation_id.clone(),
            claim_id: c.claim_id.clone(),
            source_id: c.source_id.clone(),
            frame_id: match &c.frame_id {
                Some(f) => Some(f.clone()),
                None => None,
            },
            byte_range: c.byte_range,
        };
        registry.insert(c.citation_id.clone(), entry);
        let id = c.citation_id.clone();
        citations.insert(id, c);
        k = k + 1;
    }
    assert(all.take(k as int) =~= all);
}

fn claim_ids_of(cs: &Vec<Claim>) -> (r: Vec<String>)
    ensures
        ids_of_claims(r@, cs@),
{
    let mut out: Vec<String> = Vec::new();
    let mut i: usize = 0;
    while i < cs.len()
        invariant
            i <= cs@.len(),
            out@.len() == i,
            forall|j: int| 0 <= j < i ==> (#[trigger] out@[j])@ == cs@[j].claim_id@,
        decreases cs@.len() - i,
    {
        out.push(cs[i].claim_id.clone());
        i = i + 1;
    }
    out
}

fn citation_ids_of(cs: &Vec<Citation>) -> (r: Vec<String>)
    ensures
        ids_of_citations(r@, cs@),
{
    let mut out: Vec<String> = Vec::new();
    let mut i: usize = 0;
    while i < cs.len()
        invariant
            i <= cs@.len(),
            out@.len() == i,
            forall|j: int| 0 <= j < i ==> (#[trigger] out@[j])@ == cs@[j].citation_id@,
        decreases cs@.len() - i,
    {
        out.push(cs[i].citation_id.clone());
        i = i + 1;
    }
    out
}

impl WikiPatchStore {
    /// Commits a patch: it must apply to the current revision, be well
    /// formed, be approved, and cite existing, visible, in-workspace sources
    /// and frames within their ranges. The write-ahead record is appended
    /// before anything changes; a refused patch or a failed append leaves the
    /// store as it was.
    pub fn commit_patch_with_wal<F: FnOnce(&WikiPatchWalRecord) -> Result<(), String>>(
        &mut self,
        proposal: WikiPatchProposal,
        approval: Option<ApprovalRequest>,
        sources: &[SourceManifest],
        frames: &[ParsedFrame],
        append_wal: F,
    ) -> (r: Result<WikiPatchTransaction, WikiPatchError>)
        requires
            old(self).wf(),
            old(self).revision() < u64::MAX,
            forall|w: &WikiPatchWalRecord| append_wal.requires((w,)),
        ensures
            final(self).wf(),
            refused(old(self).revision(), proposal, approval, sources@, frames@) ==> {
                &&& final(self).same_as(*old(self))
                &&& (r matches Err(e) && refusal_error(old(self).revision(), proposal, approval, sources@, frames@, e))
            },
            !refused(old(self).revision(), proposal, approval, sources@, frames@) ==> exists|w: WikiPatchWalRecord|
                #[trigger] wal_record_of(w, (old(self).revision() + 1) as u64, proposal) && match r {
                    Err(e) => final(self).same_as(*old(self)) && (e matches WikiPatchError::WalAppendFailed {
                        patch_id,
                        reason,
                    } && patch_id == proposal.patch_id && append_wal.ensures((&w,), Err::<(), String>(reason))),
                    Ok(t) => final(self).committed_from(*old(self), proposal, approval->0, t) && append_wal.ensures(
                        (&w,),
                        Ok::<(), String>(()),
                    ),
                },
    {
        let ghost p0 = proposal;
        let ghost old_store = *self;
        match self.check_patch(&proposal, &approval, sources, frames) {
            Some(e) => {
                return Err(e);
            },
            None => {},
        }
        let approval_id = match &approval {
            Some(a) => a.approval_id.clone(),
            None => {
                return Err(WikiPatchError::ApprovalRequired { patch_id: proposal.patch_id.clone() });
            },
        };
        let committed_revision = self.current_revision + 1;
        let committed_at = current_time();
        let transaction_id = {
            let head = concat2("wiki-txn-", u64_to_decimal(committed_revision).as_str());
            let mid = concat2(head.as_str(), "-");
            concat2(mid.as_str(), proposal.patch_id.as_str())
        };
        let rollback_marker_id = concat2("rollback-", transaction_id.as_str());
        let audit_record_id = concat2("audit-", transaction_id.as_str());
        let page_id = owned(proposal.page.page_id());
        let claim_ids = claim_ids_of(&proposal.claims);
        let citation_ids = citation_ids_of(&proposal.citations);
        let mut affected_page_ids: Vec<String> = Vec::new();
        affected_page_ids.push(page_id.clone());
        let rollback_marker = RollbackMarker {
            rollback_marker_id: rollback_marker_id.clone(),
            patch_id: proposal.patch_id.clone(),
            transaction_id: transaction_id.clone(),
            previous_revision: proposal.base_revision,
            affected_page_ids,
            affected_claim_ids: clone_strings(&claim_ids),
            affected_citation_ids: clone_strings(&citation_ids),
            created_at: committed_at,
        };
        let transaction = WikiPatchTransaction {
            transaction_id: transaction_id.clone(),
            patch_id: proposal.patch_id.clone(),
            workspace_id: proposal.workspace_id.clone(),
            actor_id: proposal.actor_id.clone(),
            base_revision: proposal.base_revision,
            committed_revision,
            page_id: page_id.clone(),
            claim_ids,
            citation_ids,
            approval_id,
            rollback_marker: Some(rollback_marker.clone()),
            audit_record_id: audit_record_id.clone(),
            risk_summary: proposal.risk_summary.clone(),
            committed_at,
        };
        let audit_record = AuditRecord {
            audit_record_id,
            transaction_id,
            patch_id: proposal.patch_id.clone(),
            actor_id: proposal.actor_id.clone(),
            workspace_id: proposal.workspace_id.clone(),
            base_revision: proposal.base_revision,
            committed_revision,
            rollback_marker_id: rollback_marker_id.clone(),
            recorded_at: committed_at,
        };
        let wal_record = WikiPatchWalRecord {
            transaction_id: transaction.transaction_id.clone(),
            patch_id: transaction.patch_id.clone(),
            workspace_id: transaction.workspace_id.clone(),
            actor_id: transaction.actor_id.clone(),
            committed_revision: transaction.committed_revision,
            rollback_marker_id,
        };
        proof {
            reveal_strlit("wiki-txn-");
            reveal_strlit("-");
        }
        assert(wal_record_of(wal_record, committed_revision, proposal));
        let wal = append_wal(&wal_record);
        let ghost wal_result = wal;
        assert(append_wal.ensures((&wal_record,), wal_result));
        assert(wal_record_of(wal_record, (old_store.revision() + 1) as u64, p0));
        match wal {
            Err(reason) => {
                return Err(WikiPatchError::WalAppendFailed { patch_id: proposal.patch_id.clone(), reason });
            },
            Ok(()) => {},
        }
        let ghost old_pages = self.pages@;
        let patch_id = proposal.patch_id;
        self.pages.insert(page_id, proposal.page);
        move_claims(&mut self.claims, proposal.claims);
        move_citations(&mut self.citations, &mut self.citation_registry, proposal.citations);
        self.current_revision = committed_revision;
        self.transactions.insert(patch_id.clone(), transaction.clone());
        self.rollback_markers.insert(patch_id, rollback_marker);
        self.audit_records.push(audit_record);
        self.index_status = WikiIndexStatus::Stale;
        assert(self.audit_records@.drop_last() =~= old(self).audit_records@);
        assert(self.transactions@.dom() =~= old(self).transactions@.dom().insert(p0.patch_id@));
        assert(self.rollback_markers@.dom() =~= old(self).rollback_markers@.dom().insert(p0.patch_id@));
        assert(self.revision() == old_store.revision() + 1);
        assert(self.pages_map() == old_store.pages_map().insert(page_key(p0.page), p0.page));
        assert(self.claims_map() == insert_claims(old_store.claims_map(), p0.claims@));
        assert(self.registry_map() == insert_entries(old_store.registry_map(), p0.citations@));
        assert(same_transaction(self.transactions_map()[p0.patch_id@], transaction));
        assert(self.committed_from(old_store, p0, approval->0, transaction));
        assert(old_store == *old(self));
        assert(p0 == proposal);
        assert(wal_result is Ok);
        assert(wal_result == Ok::<(), String>(wal_result->Ok_0));
        assert(wal_result->Ok_0 == ());
        assert(append_wal.ensures((&wal_record,), Ok::<(), String>(())));
        Ok(transaction)
    }

    /// Commits a patch with no write-ahead log (see `commit_patch_with_wal`):
    /// a patch that passes every check is committed.
    pub fn commit_patch(
        &mut self,
        proposal: WikiPatchProposal,
        approval: Option<ApprovalRequest>,
        sources: &[SourceManifest],
        frames: &[ParsedFrame],
    ) -> (r: Result<WikiPatchTransaction, WikiPatchError>)
        requires
            old(self).wf(),
            old(self).revision() < u64::MAX,
        ensures
            final(self).wf(),
            refused(old(self).revision(), proposal, approval, sources@, frames@) ==> {
                &&& final(self).same_as(*old(self))
                &&& (r matches Err(e) && refusal_error(old(self).revision(), proposal, approval, sources@, frames@, e))
            },
            !refused(old(self).revision(), proposal, approval, sources@, frames@) ==> (r matches Ok(t)
                && final(self).committed_from(*old(self), proposal, approval->0, t)),
    {
        self.commit_patch_with_wal(proposal, approval, sources, frames, |w: &WikiPatchWalRecord| -> (res: Result<(), String>)
            ensures
                res is Ok,
        { Ok(()) })
    }
}


/// Once a patch is committed, any other patch written against the same base
/// revision is refused: commits are ordered by revision.
pub proof fn law_stale_base_is_refused(
    before: WikiPatchStore,
    after: WikiPatchStore,
    committed: WikiPatchProposal,
    approval: ApprovalRequest,
    txn: WikiPatchTransaction,
    other: WikiPatchProposal,
    other_approval: Option<ApprovalRequest>,
    sources: Seq<SourceManifest>,
    frames: Seq<ParsedFrame>,
)
    requires
        after.committed_from(before, committed, approval, txn),
        before.revision() < u64::MAX,
        other.base_revision == committed.base_revision,
        committed.base_revision == before.revision(),
    ensures
        refused(after.revision(), other, other_approval, sources, frames),
{
}

/// An accepted citation lies inside the source it names: its byte range is
/// not empty and ends at most at the source's size, and the source is a
/// visible, ingest-scoped source of the same workspace.
pub proof fn law_accepted_citation_within_source(
    c: Citation,
    ws: Seq<char>,
    sources: Seq<SourceManifest>,
    frames: Seq<ParsedFrame>,
)
    requires
        citation_fault(c, ws, sources, frames) is None,
    ensures
        c.byte_range.start < c.byte_range.end,
        find_source(sources, c.source_id@) matches Some(si) && {
            let s = sources[si];
            &&& c.byte_range.end <= s.size
            &&& s.workspace_id@ == ws
            &&& s.visibility == SourceVisibility::Visible
            &&& s.tombstoned_at is None
            &&& s.permission_scope@ == ingest_scope()
        },
{
}

proof fn lemma_find_source_names(s: Seq<SourceManifest>, id: Seq<char>)
    ensures
        find_source(s, id) matches Some(i) ==> 0 <= i < s.len() && s[i].source_id@ == id,
    decreases s.len(),
{
    if s.len() > 0 {
        lemma_find_source_names(s.drop_first(), id);
    }
}

proof fn lemma_find_frame_names(s: Seq<ParsedFrame>, id: Seq<char>, source_id: Seq<char>)
    ensures
        find_frame(s, id, source_id) matches Some(i) ==> 0 <= i < s.len() && s[i].frame_id@ == id && s[i].source_id@ == source_id,
    decreases s.len(),
{
    if s.len() > 0 {
        lemma_find_frame_names(s.drop_first(), id, source_id);
    }
}

/// An accepted citation names a source that is there, and a cited frame
/// that is there: a frame of that source, parsed from the same content, whose
/// byte range holds the citation's.
pub proof fn law_accepted_citation_names_its_source_and_frame(
    c: Citation,
    ws: Seq<char>,
    sources: Seq<SourceManifest>,
    frames: Seq<ParsedFrame>,
)
    requires
        citation_fault(c, ws, sources, frames) is None,
    ensures
        find_source(sources, c.source_id@) matches Some(si) && 0 <= si < sources.len() && sources[si].source_id@ == c.source_id@
            && (c.frame_id matches Some(fid) ==> (find_frame(frames, fid@, c.source_id@) matches Some(fi) && 0 <= fi < frames.len()
            && frames[fi].frame_id@ == fid@ && frames[fi].source_id@ == c.source_id@ && frames[fi].source_hash@
            == sources[si].raw_content_hash@ && frames[fi].byte_range.start <= c.byte_range.start && c.byte_range.end
            <= frames[fi].byte_range.end)),
{
    lemma_find_source_names(sources, c.source_id@);
    if let Some(fid) = c.frame_id {
        lemma_find_frame_names(frames, fid@, c.source_id@);
    }
}

} // verus!
