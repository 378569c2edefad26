//! Frames and errors of pipeline runs, and the dry run that simulates a
//! composed pipeline without side effects.

use vstd::prelude::*;

use crate::hash::{hash_text, hash_text_spec};
use crate::json::{
    clone_json, entry_views, json_array, json_array_value, json_object, json_object_value, json_string, json_string_value,
    json_text, json_u64, json_u64_value, to_json_text,
};
use crate::pipe::ast::{ComposedPipeline, ComposedStep};
use crate::pipe::frame::Cardinality;
use crate::pipe::registry::SideEffectLevel;
use crate::pipe::approval_gate::ApprovalGateError;
use crate::pipe::frame::FrameType;
use crate::pipe::state_machine::StateTransitionError;
use crate::text::{concat2, concat3, decimal, owned, str_eq, u64_to_decimal};

verus! {

/// One frame flowing between steps.
#[derive(Debug, PartialEq, Eq)]
pub struct FrameEnvelope {
    pub seq: u64,
    pub step_id: String,
    pub frame_type: FrameType,
    pub payload: serde_json::Value,
}

impl Clone for FrameEnvelope {
    fn clone(&self) -> (r: Self)
        ensures
            r == *self,
    {
        FrameEnvelope {
            seq: self.seq,
            step_id: self.step_id.clone(),
            frame_type: self.frame_type,
            payload: clone_json(&self.payload),
        }
    }
}

/// What went wrong in a step.
#[derive(Debug, PartialEq, Eq)]
pub enum ErrorKind {
    TypeMismatch,
    CommandNotFound,
    SchemaValidationFailed,
    QuotaExceeded,
    ComposeFailed,
    SideEffectBlocked,
    ApprovalRequired,
    ResourceExceeded { limit: String, current: u64 },
}

impl Clone for ErrorKind {
    fn clone(&self) -> (r: Self)
        ensures
            r == *self,
    {
        match self {
            ErrorKind::TypeMismatch => ErrorKind::TypeMismatch,
            ErrorKind::CommandNotFound => ErrorKind::CommandNotFound,
            ErrorKind::SchemaValidationFailed => ErrorKind::SchemaValidationFailed,
            ErrorKind::QuotaExceeded => ErrorKind::QuotaExceeded,
            ErrorKind::ComposeFailed => ErrorKind::ComposeFailed,
            ErrorKind::SideEffectBlocked => ErrorKind::SideEffectBlocked,
            ErrorKind::ApprovalRequired => ErrorKind::ApprovalRequired,
            ErrorKind::ResourceExceeded { limit, current } => ErrorKind::ResourceExceeded {
                limit: limit.clone(),
                current: *current,
            },
        }
    }
}

/// The name of an error kind, as its message shows it.
pub open spec fn error_kind_name(k: ErrorKind) -> Seq<char> {
    match k {
        ErrorKind::TypeMismatch => "TypeMismatch"@,
        ErrorKind::CommandNotFound => "CommandNotFound"@,
        ErrorKind::SchemaValidationFailed => "SchemaValidationFailed"@,
        ErrorKind::QuotaExceeded => "QuotaExceeded"@,
        ErrorKind::ComposeFailed => "ComposeFailed"@,
        ErrorKind::SideEffectBlocked => "SideEffectBlocked"@,
        ErrorKind::ApprovalRequired => "ApprovalRequired"@,
        ErrorKind::ResourceExceeded { .. } => "ResourceExceeded"@,
    }
}

/// The debug form of an error kind: its name, and for an exceeded resource
/// the limit (quoted) and the amount used.
pub open spec fn error_kind_debug(k: ErrorKind) -> Seq<char> {
    match k {
        ErrorKind::ResourceExceeded { limit, current } => "ResourceExceeded { limit: \""@ + limit@ + "\", current: "@
            + decimal(current as nat) + " }"@,
        _ => error_kind_name(k),
    }
}

impl ErrorKind {
    /// The error kind's name.
    pub fn to_string(&self) -> (r: String)
        ensures
            r@ == error_kind_name(*self),
    {
        match self {
            ErrorKind::TypeMismatch => owned("TypeMismatch"),
            ErrorKind::CommandNotFound => owned("CommandNotFound"),
            ErrorKind::SchemaValidationFailed => owned("SchemaValidationFailed"),
            ErrorKind::QuotaExceeded => owned("QuotaExceeded"),
            ErrorKind::ComposeFailed => owned("ComposeFailed"),
            ErrorKind::SideEffectBlocked => owned("SideEffectBlocked"),
            ErrorKind::ApprovalRequired => owned("ApprovalRequired"),
            ErrorKind::ResourceExceeded { .. } => owned("ResourceExceeded"),
        }
    }

    /// The error kind's debug form.
    pub fn debug_text(&self) -> (r: String)
        ensures
            r@ == error_kind_debug(*self),
    {
        match self {
            ErrorKind::ResourceExceeded { limit, current } => {
                let head = concat3("ResourceExceeded { limit: \"", limit.as_str(), "\", current: ");
                let n = u64_to_decimal(*current);
                concat3(head.as_str(), n.as_str(), " }")
            },
            _ => self.to_string(),
        }
    }
}

/// A failed step: which one, why, and whether trying again may help.
#[derive(Debug, PartialEq, Eq)]
pub struct PipelineError {
    pub retryable: bool,
    pub failed_step_id: String,
    pub error_kind: ErrorKind,
}

impl Clone for PipelineError {
    fn clone(&self) -> (r: Self)
        ensures
            r == *self,
    {
        PipelineError {
            retryable: self.retryable,
            failed_step_id: self.failed_step_id.clone(),
            error_kind: self.error_kind.clone(),
        }
    }
}

/// The error that stands for a failure outside any one step.
pub fn run_level_failure() -> (r: PipelineError)
    ensures
        r.retryable == false,
        r.failed_step_id@ == Seq::<char>::empty(),
        r.error_kind == ErrorKind::ComposeFailed,
{
    PipelineError { retryable: false, failed_step_id: String::new(), error_kind: ErrorKind::ComposeFailed }
}

impl From<StateTransitionError> for PipelineError {
    /// A refused lifecycle transition fails the run as a whole.
    fn from(err: StateTransitionError) -> (r: Self)
        ensures
            r.retryable == false,
            r.failed_step_id@ == Seq::<char>::empty(),
            r.error_kind == ErrorKind::ComposeFailed,
    {
        run_level_failure()
    }
}

impl vstd::std_specs::convert::FromSpecImpl<StateTransitionError> for PipelineError {
    open spec fn obeys_from_spec() -> bool {
        false
    }

    open spec fn from_spec(v: StateTransitionError) -> PipelineError {
        arbitrary()
    }
}

impl From<ApprovalGateError> for PipelineError {
    /// A failed approval request fails the run as a whole.
    fn from(err: ApprovalGateError) -> (r: Self)
        ensures
            r.retryable == false,
            r.failed_step_id@ == Seq::<char>::empty(),
            r.error_kind == ErrorKind::ComposeFailed,
    {
        run_level_failure()
    }
}

impl vstd::std_specs::convert::FromSpecImpl<ApprovalGateError> for PipelineError {
    open spec fn obeys_from_spec() -> bool {
        false
    }

    open spec fn from_spec(v: ApprovalGateError) -> PipelineError {
        arbitrary()
    }
}

// ---------------------------------------------------------------------------
// The dry run
// ---------------------------------------------------------------------------

/// One event of a dry run.
#[derive(Debug, PartialEq, Eq)]
pub enum DryRunEvent {
    Request { pipeline_id: String, input: serde_json::Value },
    StepStarted { step_id: String },
    Frame { step_id: String, envelope: FrameEnvelope },
    Checkpoint { step_id: String, input_hash: String, output_hash: String, frame_offset: u64 },
    StepCompleted { step_id: String },
    StepFailed { step_id: String, error: PipelineError },
}

/// The patch a pipeline ending in a proposal would propose.
#[derive(Debug, Clone, PartialEq, Eq)]
pub struct PatchProposalArtifact {
    pub patch_id: String,
    pub base_revision: String,
    pub diff: String,
    pub claim_ids: Vec<String>,
}

/// What a dry run foresees.
#[derive(Debug, PartialEq, Eq)]
pub struct DryRunResult {
    pub events: Vec<DryRunEvent>,
    pub expected_read_ranges: Vec<String>,
    pub expected_permissions: Vec<String>,
    pub expected_frame_count: u64,
    pub proposal_artifact: Option<PatchProposalArtifact>,
}

/// How many frames a step is simulated to give: one or two by its output cardinality.
pub open spec fn frames_per(step: ComposedStep) -> nat {
    if step.output_type.1 == Cardinality::One { 1 } else { 2 }
}

/// How many frames the first `i` steps give.
pub open spec fn frames_before(steps: Seq<ComposedStep>, i: int) -> nat
    decreases i,
{
    if i <= 0 { 0 } else { frames_before(steps, i - 1) + frames_per(steps[i - 1]) }
}

/// Where step `i`'s events begin: after the request and the earlier steps'
/// start, frame, checkpoint and completion events.
pub open spec fn block_start(steps: Seq<ComposedStep>, i: int) -> int {
    1 + 2 * i + 2 * frames_before(steps, i)
}

/// The simulated payload of frame number `n` of a type.
pub open spec fn sim_payload(t: FrameType, n: u64) -> serde_json::Value {
    match t {
        FrameType::ParagraphFrame => json_object_value(seq![
            ("paragraph_id"@, json_string_value("para-"@ + decimal(n as nat))),
            ("text"@, json_string_value("simulated paragraph"@)),
        ]),
        FrameType::CitedParagraph => json_object_value(seq![
            ("citation_id"@, json_string_value("cite-"@ + decimal(n as nat))),
            ("text"@, json_string_value("simulated cited paragraph"@)),
        ]),
        FrameType::TextAnswer => json_object_value(seq![
            ("text"@, json_string_value("simulated answer"@)),
            ("citations"@, json_array_value(Seq::empty())),
        ]),
        FrameType::PatchProposalArtifact => json_object_value(seq![
            ("patch_id"@, json_string_value("patch-"@ + decimal(n as nat))),
            ("diff"@, json_string_value("simulated diff"@)),
        ]),
        FrameType::JsonValue => json_object_value(seq![("seq"@, json_u64_value(n))]),
    }
}

/// The simulated frame number `n` of a step.
pub open spec fn sim_envelope(step: ComposedStep, n: u64) -> FrameEnvelope {
    FrameEnvelope { seq: n, step_id: step.step_id, frame_type: step.output_type.0, payload: sim_payload(step.output_type.0, n) }
}

/// The payload that flows into step `i`: the input, or the last simulated
/// frame of the step before.
pub open spec fn payload_before(steps: Seq<ComposedStep>, input: serde_json::Value, i: int) -> serde_json::Value {
    if i <= 0 {
        input
    } else {
        sim_payload(steps[i - 1].output_type.0, frames_before(steps, i) as u64)
    }
}

/// The hash of a value's JSON text.
pub open spec fn value_hash(v: serde_json::Value) -> Seq<char> {
    hash_text_spec(json_text(v))
}

/// Whether the events of step `i` are where they belong: its start, then for
/// each simulated frame the frame and its checkpoint (hashing the payload that
/// flowed in and the frame's), then its completion.
pub open spec fn step_events_ok(steps: Seq<ComposedStep>, input: serde_json::Value, events: Seq<DryRunEvent>, i: int) -> bool {
    let st = steps[i];
    let s = block_start(steps, i);
    let base = frames_before(steps, i);
    &&& events[s] matches DryRunEvent::StepStarted { step_id } && step_id == st.step_id
    &&& forall|k: int| 0 <= k < frames_per(st) ==> {
        &&& (#[trigger] events[s + 1 + 2 * k]) matches DryRunEvent::Frame { step_id, envelope } && step_id == st.step_id
            && envelope == sim_envelope(st, (base + k + 1) as u64)
        &&& events[s + 2 + 2 * k] matches DryRunEvent::Checkpoint { step_id, input_hash, output_hash, frame_offset }
            && step_id == st.step_id && input_hash@ == value_hash(payload_before(steps, input, i)) && output_hash@
            == value_hash(sim_payload(st.output_type.0, (base + k + 1) as u64)) && frame_offset == k
    }
    &&& events[s + 1 + 2 * frames_per(st)] matches DryRunEvent::StepCompleted { step_id } && step_id == st.step_id
}

/// The read range and permission a command is expected to need.
pub open spec fn command_access(command: Seq<char>, step_id: Seq<char>) -> Option<(Seq<char>, Seq<char>)> {
    if command == "wiki.search"@ {
        Some(("wiki:index:"@ + step_id, "wiki:read"@))
    } else if command == "citation.resolve"@ {
        Some(("citation:index:"@ + step_id, "citation:read"@))
    } else if command == "adr.summarize"@ {
        Some(("adr:corpus:"@ + step_id, "adr:read"@))
    } else if command == "wiki.patch.propose"@ {
        Some(("wiki:draft:"@ + step_id, "wiki:propose"@))
    } else {
        None
    }
}

/// The read ranges (`which == 0`) or permissions (`which == 1`) the first
/// `n` steps are expected to need, in step order.
pub open spec fn expected_access(steps: Seq<ComposedStep>, n: int, which: int) -> Seq<Seq<char>>
    decreases n,
{
    if n <= 0 {
        Seq::empty()
    } else {
        let prev = expected_access(steps, n - 1, which);
        match command_access(steps[n - 1].command_id@, steps[n - 1].step_id@) {
            Some(a) => prev.push(if which == 0 { a.0 } else { a.1 }),
            None => prev,
        }
    }
}

/// The proposal a pipeline whose last step only proposes is expected to make.
pub open spec fn expected_proposal(p: ComposedPipeline, a: Option<PatchProposalArtifact>) -> bool {
    if p.steps@.len() > 0 && p.steps@.last().side_effect_level == SideEffectLevel::ProposalOnly {
        a matches Some(x) && x.patch_id@ == "patch-"@ + p.pipeline_id@ && x.base_revision@ == "1"@ && x.diff@
            == "// simulated diff for "@ + p.steps@.last().step_id@ + "\n+ proposed change"@ && crate::text::views(x.claim_ids@)
            == seq!["claim-1"@, "claim-2"@]
    } else {
        a is None
    }
}

fn sim_payload_exec(t: FrameType, n: u64) -> (r: serde_json::Value)
    ensures
        r == sim_payload(t, n),
{
    let mut e: Vec<(String, serde_json::Value)> = Vec::new();
    match t {
        FrameType::ParagraphFrame => {
            e.push((owned("paragraph_id"), json_string(concat2("para-", u64_to_decimal(n).as_str()).as_str())));
            e.push((owned("text"), json_string("simulated paragraph")));
        },
        FrameType::CitedParagraph => {
            e.push((owned("citation_id"), json_string(concat2("cite-", u64_to_decimal(n).as_str()).as_str())));
            e.push((owned("text"), json_string("simulated cited paragraph")));
        },
        FrameType::TextAnswer => {
            let empty: Vec<serde_json::Value> = Vec::new();
            assert(empty@ =~= Seq::<serde_json::Value>::empty());
            e.push((owned("text"), json_string("simulated answer")));
            e.push((owned("citations"), json_array(empty)));
        },
        FrameType::PatchProposalArtifact => {
            e.push((owned("patch_id"), json_string(concat2("patch-", u64_to_decimal(n).as_str()).as_str())));
            e.push((owned("diff"), json_string("simulated diff")));
        },
        FrameType::JsonValue => {
            e.push((owned("seq"), json_u64(n)));
        },
    }
    proof {
        match t {
            FrameType::JsonValue => {
                assert(entry_views(e@) =~= seq![("seq"@, json_u64_value(n))]);
            },
            _ => {
                assert(entry_views(e@) =~= seq![(e@[0].0@, e@[0].1), (e@[1].0@, e@[1].1)]);
            },
        }
    }
    json_object(e)
}

fn value_hash_exec(v: &serde_json::Value) -> (r: String)
    ensures
        r@ == value_hash(*v),
{
    let text = to_json_text(v);
    hash_text(text.as_str())
}

fn access_of(step: &ComposedStep) -> (r: Option<(String, String)>)
    ensures
        r is None <==> command_access(step.command_id@, step.step_id@) is None,
        r matches Some(a) ==> command_access(step.command_id@, step.step_id@) == Some((a.0@, a.1@)),
{
    let c = step.command_id.as_str();
    let id = step.step_id.as_str();
    proof {
        reveal_strlit("wiki.search");
        reveal_strlit("citation.resolve");
        reveal_strlit("adr.summarize");
        reveal_strlit("wiki.patch.propose");
    }
    if str_eq(c, "wiki.search") {
        Some((concat2("wiki:index:", id), owned("wiki:read")))
    } else if str_eq(c, "citation.resolve") {
        Some((concat2("citation:index:", id), owned("citation:read")))
    } else if str_eq(c, "adr.summarize") {
        Some((concat2("adr:corpus:", id), owned("adr:read")))
    } else if str_eq(c, "wiki.patch.propose") {
        Some((concat2("wiki:draft:", id), owned("wiki:propose")))
    } else {
        None
    }
}

proof fn lemma_frames_before_bound(steps: Seq<ComposedStep>, i: int)
    requires
        0 <= i <= steps.len(),
    ensures
        frames_before(steps, i) <= 2 * i,
    decreases i,
{
    if i > 0 {
        lemma_frames_before_bound(steps, i - 1);
    }
}

/// Simulates a composed pipeline without running it: each step gives one
/// simulated frame, or two when it gives many, numbered across the run; the
/// events record the request, each step's start, frames with checkpoints and
/// completion; the commands' expected read ranges and permissions are listed;
/// a pipeline whose last step only proposes yields the proposal it would make.
pub fn dry_run(pipeline: &ComposedPipeline, initial_input: serde_json::Value) -> (r: DryRunResult)
    requires
        pipeline.steps@.len() < 0x8000_0000_0000_0000,
    ensures
        r.events@.len() == block_start(pipeline.steps@, pipeline.steps@.len() as int),
        r.events@[0] matches DryRunEvent::Request { pipeline_id, input } && pipeline_id == pipeline.pipeline_id && input
            == initial_input,
        forall|i: int| 0 <= i < pipeline.steps@.len() ==> #[trigger] step_events_ok(pipeline.steps@, initial_input, r.events@, i),
        crate::text::views(r.expected_read_ranges@) == expected_access(pipeline.steps@, pipeline.steps@.len() as int, 0),
        crate::text::views(r.expected_permissions@) == expected_access(pipeline.steps@, pipeline.steps@.len() as int, 1),
        r.expected_frame_count == frames_before(pipeline.steps@, pipeline.steps@.len() as int),
        expected_proposal(*pipeline, r.proposal_artifact),
{
    let ghost steps = pipeline.steps@;
    let ghost input0 = initial_input;
    let mut events: Vec<DryRunEvent> = Vec::new();
    let mut reads: Vec<String> = Vec::new();
    let mut perms: Vec<String> = Vec::new();
    let mut seq: u64 = 0;
    events.push(DryRunEvent::Request { pipeline_id: pipeline.pipeline_id.clone(), input: clone_json(&initial_input) });
    let mut current = initial_input;
    let mut i: usize = 0;
    while i < pipeline.steps.len()
        invariant
            i <= steps.len(),
            steps == pipeline.steps@,
            steps.len() < 0x8000_0000_0000_0000,
            seq == frames_before(steps, i as int),
            seq <= 2 * i,
            current == payload_before(steps, input0, i as int),
            events@.len() == block_start(steps, i as int),
            events@[0] matches DryRunEvent::Request { pipeline_id, input } && pipeline_id == pipeline.pipeline_id && input == input0,
            forall|j: int| 0 <= j < i ==> #[trigger] step_events_ok(steps, input0, events@, j),
            crate::text::views(reads@) == expected_access(steps, i as int, 0),
            crate::text::views(perms@) == expected_access(steps, i as int, 1),
        decreases steps.len() - i,
    {
        let step = &pipeline.steps[i];
        let ghost before = events@;
        let ghost s0 = block_start(steps, i as int);
        events.push(DryRunEvent::StepStarted { step_id: step.step_id.clone() });
        match access_of(step) {
            Some((range, perm)) => {
                let ghost rv = crate::text::views(reads@);
                let ghost pv = crate::text::views(perms@);
                reads.push(range);
                perms.push(perm);
                assert(crate::text::views(reads@) =~= rv.push(reads@.last()@));
                assert(crate::text::views(perms@) =~= pv.push(perms@.last()@));
            },
            None => {},
        }
        let input_hash = value_hash_exec(&current);
        let count: u64 = if step.output_type.1 == Cardinality::One { 1 } else { 2 };
        let mut k: u64 = 0;
        while k < count
            invariant
                k <= count,
                count == frames_per(steps[i as int]),
                i < steps.len(),
                steps.len() < 0x8000_0000_0000_0000,
                steps == pipeline.steps@,
                *step == steps[i as int],
                seq == frames_before(steps, i as int) + k,
                seq <= 2 * i + k,
                input_hash@ == value_hash(payload_before(steps, input0, i as int)),
                k > 0 ==> current == sim_payload(steps[i as int].output_type.0, seq),
                k == 0 ==> current == payload_before(steps, input0, i as int),
                s0 == block_start(steps, i as int),
                events@.len() == s0 + 1 + 2 * k,
                events@.take(s0) == before,
                events@[s0] matches DryRunEvent::StepStarted { step_id } && step_id == steps[i as int].step_id,
                forall|q: int| 0 <= q < k ==> {
                    &&& (#[trigger] events@[s0 + 1 + 2 * q]) matches DryRunEvent::Frame { step_id, envelope } && step_id
                        == steps[i as int].step_id && envelope == sim_envelope(steps[i as int], (frames_before(steps, i as int) + q + 1) as u64)
                    &&& events@[s0 + 2 + 2 * q] matches DryRunEvent::Checkpoint { step_id, input_hash: ih, output_hash, frame_offset }
                        && step_id == steps[i as int].step_id && ih@ == value_hash(payload_before(steps, input0, i as int))
                        && output_hash@ == value_hash(sim_payload(steps[i as int].output_type.0, (frames_before(steps, i as int) + q + 1) as u64))
                        && frame_offset == q
                },
            decreases count - k,
        {
            seq = seq + 1;
            let payload = sim_payload_exec(step.output_type.0, seq);
            let output_hash = value_hash_exec(&payload);
            let frame = FrameEnvelope { seq, step_id: step.step_id.clone(), frame_type: step.output_type.0, payload: clone_json(&payload) };
            events.push(DryRunEvent::Frame { step_id: step.step_id.clone(), envelope: frame });
            events.push(DryRunEvent::Checkpoint { step_id: step.step_id.clone(), input_hash: input_hash.clone(), output_hash, frame_offset: k });
            current = payload;
            k = k + 1;
        }
        let ghost mid = events@;
        events.push(DryRunEvent::StepCompleted { step_id: step.step_id.clone() });
        assert(events@.take(s0) =~= mid.take(s0));
        proof {
            lemma_frames_before_bound(steps, i + 1);
            assert(frames_before(steps, i + 1) == frames_before(steps, i as int) + frames_per(steps[i as int]));
            assert(step_events_ok(steps, input0, events@, i as int));
            assert forall|j: int| 0 <= j < i + 1 implies #[trigger] step_events_ok(steps, input0, events@, j) by {
                if j < i {
                    assert(step_events_ok(steps, input0, before, j));
                    lemma_block_prefix(steps, input0, before, events@, j, i as int);
                }
            }
        }
        i = i + 1;
    }
    let proposal_artifact = if pipeline.steps.len() > 0 && pipeline.steps[pipeline.steps.len() - 1].side_effect_level == SideEffectLevel::ProposalOnly {
        let last = &pipeline.steps[pipeline.steps.len() - 1];
        let mut claim_ids: Vec<String> = Vec::new();
        claim_ids.push(owned("claim-1"));
        claim_ids.push(owned("claim-2"));
        assert(crate::text::views(claim_ids@) =~= seq!["claim-1"@, "claim-2"@]);
        Some(PatchProposalArtifact {
            patch_id: concat2("patch-", pipeline.pipeline_id.as_str()),
            base_revision: owned("1"),
            diff: concat3("// simulated diff for ", last.step_id.as_str(), "\n+ proposed change"),
            claim_ids,
        })
    } else {
        None
    };
    DryRunResult { events, expected_read_ranges: reads, expected_permissions: perms, expected_frame_count: seq, proposal_artifact }
}

proof fn lemma_block_prefix(
    steps: Seq<ComposedStep>,
    input: serde_json::Value,
    before: Seq<DryRunEvent>,
    after: Seq<DryRunEvent>,
    j: int,
    i: int,
)
    requires
        0 <= j < i < steps.len(),
        before.len() == block_start(steps, i),
        after.len() >= before.len(),
        after.take(before.len() as int) == before,
        step_events_ok(steps, input, before, j),
    ensures
        step_events_ok(steps, input, after, j),
{
    lemma_block_order(steps, j + 1, i);
    assert forall|x: int| 0 <= x < before.len() implies after[x] == before[x] by {
        assert(after.take(before.len() as int)[x] == after[x]);
    }
}

proof fn lemma_block_order(steps: Seq<ComposedStep>, a: int, b: int)
    requires
        0 <= a <= b <= steps.len(),
    ensures
        block_start(steps, a) <= block_start(steps, b),
    decreases b - a,
{
    if a < b {
        lemma_block_order(steps, a + 1, b);
    }
}

} // verus!
