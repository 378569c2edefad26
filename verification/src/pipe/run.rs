//! Running composed pipelines with command executors, under step policies and
//! resource quotas.

use vstd::prelude::*;

use crate::json::{clone_json, json_as_array, json_elements, json_text, to_json_text};
use crate::pipe::ast::{ComposedPipeline, ComposedStep, FailurePolicy, InputBinding};
use crate::pipe::dry_run::{error_kind_debug, ErrorKind, FrameEnvelope, PipelineError};
use crate::pipe::frame::Cardinality;
use crate::pipe::registry::{lookup_manifest, CommandRegistry, PipeCommandManifest, ResourceQuota, SideEffectLevel};
use crate::policy::types::PolicyDecision;
use crate::clock::{elapsed_ms, monotonic_now, now_ms};
use crate::keyed::KeyedMap;
use crate::text::{concat2, owned, str_eq};

verus! {

/// Most frames a step may take or give when its command has a quota.
pub const MAX_FRAME_COUNT: u64 = 1000;

/// Largest serialised frame payload, in bytes, when the command has a quota.
pub const MAX_FRAME_SIZE: u64 = 1048576;

/// What has been used so far in a run.
#[derive(Debug, Clone, Copy, PartialEq, Eq, Structural)]
pub struct ResourceUsage {
    pub cpu_ms: u64,
    pub memory_mb: u64,
    pub frame_count: u64,
}

impl Default for ResourceUsage {
    fn default() -> (r: Self)
        ensures
            r == (ResourceUsage { cpu_ms: 0, memory_mb: 0, frame_count: 0 }),
    {
        ResourceUsage { cpu_ms: 0, memory_mb: 0, frame_count: 0 }
    }
}

/// The record of one step's policy decision.
#[derive(Debug, PartialEq, Eq)]
pub struct AuditRecord {
    pub step_id: String,
    pub command_id: String,
    pub decision: String,
    pub timestamp_ms: u64,
}

impl Clone for AuditRecord {
    fn clone(&self) -> (r: Self)
        ensures
            r == *self,
    {
        AuditRecord {
            step_id: self.step_id.clone(),
            command_id: self.command_id.clone(),
            decision: self.decision.clone(),
            timestamp_ms: self.timestamp_ms,
        }
    }
}

/// Who runs the pipeline, where, and what it has done and used so far.
pub struct ExecutionContext {
    pub workspace_id: String,
    pub actor_id: String,
    pub pipeline_id: String,
    pub audit: Vec<AuditRecord>,
    pub resource_used: ResourceUsage,
}

/// The output of a run and its audit trail.
#[derive(Debug, PartialEq, Eq)]
pub struct RunResult {
    pub output: Vec<FrameEnvelope>,
    pub audit: Vec<AuditRecord>,
}

/// Decides, per step, whether it may run.
pub trait StepPolicy {
    /// The decision this policy makes for a step in the given context.
    spec fn decision(&self, step: ComposedStep, ctx: ExecutionContext) -> PolicyDecision;

    /// The decision for a step in the given context.
    fn check(&self, step: &ComposedStep, ctx: &ExecutionContext) -> (r: PolicyDecision)
        ensures
            r == self.decision(*step, *ctx),
    ;
}

/// Lets steps without side effects run and asks approval for the others.
#[derive(Debug, Clone, Copy, PartialEq, Eq)]
pub struct SimplePolicy;

impl StepPolicy for SimplePolicy {
    /// Steps without side effects may run; the others need approval.
    open spec fn decision(&self, step: ComposedStep, ctx: ExecutionContext) -> PolicyDecision {
        if step.side_effect_level == SideEffectLevel::NoEffect {
            PolicyDecision::Allow
        } else {
            PolicyDecision::RequireApproval
        }
    }

    fn check(&self, step: &ComposedStep, ctx: &ExecutionContext) -> (r: PolicyDecision)
        ensures
            r == (if step.side_effect_level == SideEffectLevel::NoEffect {
                PolicyDecision::Allow
            } else {
                PolicyDecision::RequireApproval
            }),
    {
        match step.side_effect_level {
            SideEffectLevel::NoEffect => PolicyDecision::Allow,
            _ => PolicyDecision::RequireApproval,
        }
    }
}

/// Runs one command on the frames given to it.
pub trait CommandExecutor {
    /// The frames the command gives for `input`, or why it failed.
    fn execute(&self, step: &ComposedStep, input: Vec<FrameEnvelope>, ctx: &mut ExecutionContext) -> Result<
        Vec<FrameEnvelope>,
        PipelineError,
    >;
}

/// The state a DAG step ended in.
#[derive(Debug, Clone, Copy, PartialEq, Eq, Structural)]
pub enum StepState {
    Completed,
    Skipped,
}

// ---------------------------------------------------------------------------
// Limits
// ---------------------------------------------------------------------------

/// Whether `e` is the error for `limit` over its bound at `step`, with `current` used.
pub open spec fn is_exceeded(e: PipelineError, step: ComposedStep, limit: Seq<char>, current: u64) -> bool {
    &&& !e.retryable
    &&& e.failed_step_id == step.step_id
    &&& e.error_kind matches ErrorKind::ResourceExceeded { limit: l, current: c } && l@ == limit && c == current
}

fn resource_exceeded(step: &ComposedStep, limit: &str, current: u64) -> (r: PipelineError)
    ensures
        is_exceeded(r, *step, limit@, current),
{
    PipelineError {
        retryable: false,
        failed_step_id: step.step_id.clone(),
        error_kind: ErrorKind::ResourceExceeded { limit: owned(limit), current },
    }
}

/// The size in bytes of a frame's serialised payload (its UTF-8 length, as
/// `str::len` gives it).
pub open spec fn frame_size(f: FrameEnvelope) -> nat {
    (vstd::utf8::encode_utf8(json_text(f.payload)).len() as usize) as nat
}

/// The first frame, from `k` on, whose payload is over the size limit.
pub open spec fn first_oversized(frames: Seq<FrameEnvelope>, k: int) -> Option<int>
    decreases frames.len() - k,
{
    if k >= frames.len() || k < 0 {
        None
    } else if frame_size(frames[k]) > MAX_FRAME_SIZE {
        Some(k)
    } else {
        first_oversized(frames, k + 1)
    }
}

/// The check of a step's frames against the count and size limits.
pub open spec fn frame_limits_check(step: ComposedStep, frames: Seq<FrameEnvelope>) -> Option<(Seq<char>, int)> {
    if frames.len() > MAX_FRAME_COUNT {
        Some(("frame_count"@, frames.len() as int))
    } else {
        match first_oversized(frames, 0) {
            Some(k) => Some(("frame_size"@, frame_size(frames[k]) as int)),
            None => None,
        }
    }
}

/// Checks the frame count and each payload's size; the first limit broken is reported.
pub fn check_frame_limits(step: &ComposedStep, frames: &Vec<FrameEnvelope>) -> (r: Result<(), PipelineError>)
    ensures
        frame_limits_check(*step, frames@) is None ==> r is Ok,
        frame_limits_check(*step, frames@) matches Some((limit, current)) ==> (r matches Err(e) && is_exceeded(
            e,
            *step,
            limit,
            current as u64,
        )),
{
    let count = frames.len();
    if count as u64 > MAX_FRAME_COUNT {
        return Err(resource_exceeded(step, "frame_count", count as u64));
    }
    let mut i: usize = 0;
    while i < frames.len()
        invariant
            i <= frames@.len(),
            frames@.len() <= MAX_FRAME_COUNT,
            first_oversized(frames@, 0) == first_oversized(frames@, i as int),
        decreases frames@.len() - i,
    {
        let text = to_json_text(&frames[i].payload);
        let size = text.as_str().len();
        assert(size == frame_size(frames@[i as int]));
        if size as u64 > MAX_FRAME_SIZE {
            return Err(resource_exceeded(step, "frame_size", size as u64));
        }
        i = i + 1;
    }
    Ok(())
}

/// The check of a step's elapsed time and the run's memory against a quota.
pub open spec fn step_limits_check(quota: ResourceQuota, elapsed_ms: u64, used: ResourceUsage) -> Option<(Seq<char>, u64)> {
    if elapsed_ms > quota.cpu_ms {
        Some(("cpu_ms"@, elapsed_ms))
    } else if used.memory_mb > quota.memory_mb {
        Some(("memory_mb"@, used.memory_mb))
    } else {
        None
    }
}

/// Checks a step's elapsed time and the memory used against the quota.
pub fn check_step_limits(step: &ComposedStep, quota: &ResourceQuota, elapsed_ms: u64, ctx: &ExecutionContext) -> (r: Result<
    (),
    PipelineError,
>)
    ensures
        step_limits_check(*quota, elapsed_ms, ctx.resource_used) is None ==> r is Ok,
        step_limits_check(*quota, elapsed_ms, ctx.resource_used) matches Some((limit, current)) ==> (r matches Err(e)
            && is_exceeded(e, *step, limit, current)),
{
    if elapsed_ms > quota.cpu_ms {
        return Err(resource_exceeded(step, "cpu_ms", elapsed_ms));
    }
    if ctx.resource_used.memory_mb > quota.memory_mb {
        return Err(resource_exceeded(step, "memory_mb", ctx.resource_used.memory_mb));
    }
    Ok(())
}

// ---------------------------------------------------------------------------
// Finishing a step on what its executor gave
// ---------------------------------------------------------------------------

/// The text an audit record gives for a policy decision.
pub open spec fn decision_text(d: PolicyDecision) -> Seq<char> {
    match d {
        PolicyDecision::Allow => "allow"@,
        PolicyDecision::Deny => "deny"@,
        PolicyDecision::RequireApproval => "approval_required"@,
    }
}

fn decision_name(d: PolicyDecision) -> (r: String)
    ensures
        r@ == decision_text(d),
{
    match d {
        PolicyDecision::Allow => owned("allow"),
        PolicyDecision::Deny => owned("deny"),
        PolicyDecision::RequireApproval => owned("approval_required"),
    }
}

/// The frames renumbered from 0 in order.
pub open spec fn reseq(frames: Seq<FrameEnvelope>) -> Seq<FrameEnvelope> {
    Seq::new(
        frames.len(),
        |i: int|
            FrameEnvelope {
                seq: i as u64,
                step_id: frames[i].step_id,
                frame_type: frames[i].frame_type,
                payload: frames[i].payload,
            },
    )
}

/// Renumbers frames from 0 in order.
pub fn renumber(frames: &mut Vec<FrameEnvelope>)
    ensures
        final(frames)@ == reseq(old(frames)@),
{
    let ghost orig = frames@;
    let mut i: usize = 0;
    while i < frames.len()
        invariant
            i <= frames@.len(),
            frames@.len() == orig.len(),
            forall|j: int| 0 <= j < i ==> #[trigger] frames@[j] == reseq(orig)[j],
            forall|j: int| i <= j < frames@.len() ==> #[trigger] frames@[j] == orig[j],
        decreases frames@.len() - i,
    {
        let f = FrameEnvelope {
            seq: i as u64,
            step_id: frames[i].step_id.clone(),
            frame_type: frames[i].frame_type,
            payload: clone_json(&frames[i].payload),
        };
        frames.set(i, f);
        i = i + 1;
    }
    assert(frames@ =~= reseq(orig));
}

/// The first frame whose type is not `t`.
pub open spec fn first_mistyped(frames: Seq<FrameEnvelope>, t: crate::pipe::frame::FrameType) -> Option<int> {
    if exists|k: int| 0 <= k < frames.len() && (#[trigger] frames[k]).frame_type != t {
        Some(choose|k: int| 0 <= k < frames.len() && (#[trigger] frames[k]).frame_type != t)
    } else {
        None
    }
}

/// The error for frames of the wrong type at a step.
pub open spec fn is_type_mismatch(e: PipelineError, step: ComposedStep) -> bool {
    !e.retryable && e.failed_step_id == step.step_id && e.error_kind == ErrorKind::TypeMismatch
}

/// Whether `r` is what a step yields once its executor has answered
/// `result`: the quota's time and memory checks first, then the output's
/// types and limits, or, for a failure, the step's failure policy; the frames
/// come renumbered.
pub open spec fn step_yields(
    step: ComposedStep,
    quota: Option<ResourceQuota>,
    result: Result<Seq<FrameEnvelope>, PipelineError>,
    elapsed_ms: u64,
    used: ResourceUsage,
    r: Result<Seq<FrameEnvelope>, PipelineError>,
) -> bool {
    if quota is Some && step_limits_check(quota->0, elapsed_ms, used) is Some {
        let (limit, current) = step_limits_check(quota->0, elapsed_ms, used)->0;
        r matches Err(e) && is_exceeded(e, step, limit, current)
    } else {
        match result {
            Ok(frames) => {
                if first_mistyped(frames, step.output_type.0) is Some {
                    r matches Err(e) && is_type_mismatch(e, step)
                } else if quota is Some && frame_limits_check(step, frames) is Some {
                    let (limit, current) = frame_limits_check(step, frames)->0;
                    r matches Err(e) && is_exceeded(e, step, limit, current as u64)
                } else {
                    r == Ok::<Seq<FrameEnvelope>, PipelineError>(reseq(frames))
                }
            },
            Err(err) => match step.failure_policy {
                FailurePolicy::FailFast => r == Err::<Seq<FrameEnvelope>, PipelineError>(err),
                FailurePolicy::Skip => r == Ok::<Seq<FrameEnvelope>, PipelineError>(Seq::empty()),
                FailurePolicy::Default(v) => r == Ok::<Seq<FrameEnvelope>, PipelineError>(
                    seq![FrameEnvelope { seq: 0, step_id: step.step_id, frame_type: step.output_type.0, payload: v }],
                ),
            },
        }
    }
}

/// Some record of the audit trail is about the step.
pub open spec fn audit_has_step(audit: Seq<AuditRecord>, step_id: Seq<char>) -> bool {
    exists|i: int| 0 <= i < audit.len() && (#[trigger] audit[i]).step_id@ == step_id
}

/// Whether an audit record says `text` of `step` at `at`.
pub open spec fn audit_says(a: AuditRecord, step: ComposedStep, text: Seq<char>, at: u64) -> bool {
    a.step_id == step.step_id && a.command_id == step.command_id && a.decision@ == text && a.timestamp_ms == at
}

/// The context after a step: time added, frames counted, and audit records
/// added, as `finish_step` does them.
pub open spec fn finish_effects(
    step: ComposedStep,
    result: Result<Seq<FrameEnvelope>, PipelineError>,
    elapsed_ms: u64,
    decision: PolicyDecision,
    now_ms: u64,
    old_ctx: ExecutionContext,
    new_ctx: ExecutionContext,
    r: Result<Seq<FrameEnvelope>, PipelineError>,
) -> bool {
    let cpu = if old_ctx.resource_used.cpu_ms + elapsed_ms > u64::MAX {
        u64::MAX
    } else {
        (old_ctx.resource_used.cpu_ms + elapsed_ms) as u64
    };
    &&& new_ctx.workspace_id == old_ctx.workspace_id
    &&& new_ctx.actor_id == old_ctx.actor_id
    &&& new_ctx.pipeline_id == old_ctx.pipeline_id
    &&& new_ctx.resource_used.cpu_ms == cpu
    &&& new_ctx.resource_used.memory_mb == old_ctx.resource_used.memory_mb
    &&& r is Ok ==> (result matches Ok(frames) ==> {
        let n = old_ctx.resource_used.frame_count + frames.len();
        new_ctx.resource_used.frame_count == if n > u64::MAX { u64::MAX } else { n as u64 }
    })
    &&& !(r is Ok && result is Ok) ==> new_ctx.resource_used.frame_count == old_ctx.resource_used.frame_count
    &&& r is Err ==> new_ctx.audit@ == old_ctx.audit@
    &&& (r is Ok && step.failure_policy is Skip) ==> (result matches Err(err) ==> new_ctx.audit@.len() == old_ctx.audit@.len() + 1
        && new_ctx.audit@.drop_last() == old_ctx.audit@ && audit_says(
        new_ctx.audit@.last(),
        step,
        "skipped: "@ + error_kind_debug(err.error_kind),
        now_ms,
    ))
    &&& (r is Ok && !(result is Err && step.failure_policy is Skip)) ==> if audit_has_step(old_ctx.audit@, step.step_id@) {
        new_ctx.audit@ == old_ctx.audit@
    } else {
        new_ctx.audit@.len() == old_ctx.audit@.len() + 1 && new_ctx.audit@.drop_last() == old_ctx.audit@ && audit_says(
            new_ctx.audit@.last(),
            step,
            decision_text(decision),
            now_ms,
        )
    }
}

fn frames_view(r: Result<Vec<FrameEnvelope>, PipelineError>) -> (v: Result<Vec<FrameEnvelope>, PipelineError>)
    ensures
        v == r,
{
    r
}

/// The view of a step's outcome: its frames as a sequence.
pub open spec fn outcome_view(r: Result<Vec<FrameEnvelope>, PipelineError>) -> Result<Seq<FrameEnvelope>, PipelineError> {
    match r {
        Ok(v) => Ok(v@),
        Err(e) => Err(e),
    }
}

fn has_step_record(audit: &Vec<AuditRecord>, step_id: &str) -> (r: bool)
    ensures
        r == audit_has_step(audit@, step_id@),
{
    let mut i: usize = 0;
    while i < audit.len()
        invariant
            i <= audit@.len(),
            forall|j: int| 0 <= j < i ==> (#[trigger] audit@[j]).step_id@ != step_id@,
        decreases audit@.len() - i,
    {
        if str_eq(audit[i].step_id.as_str(), step_id) {
            return true;
        }
        i = i + 1;
    }
    false
}

fn find_mistyped(frames: &Vec<FrameEnvelope>, t: crate::pipe::frame::FrameType) -> (r: bool)
    ensures
        r == (first_mistyped(frames@, t) is Some),
{
    let mut i: usize = 0;
    while i < frames.len()
        invariant
            i <= frames@.len(),
            forall|j: int| 0 <= j < i ==> (#[trigger] frames@[j]).frame_type == t,
        decreases frames@.len() - i,
    {
        if frames[i].frame_type != t {
            assert(frames@[i as int].frame_type != t);
            return true;
        }
        i = i + 1;
    }
    false
}

/// Finishes a step on what its executor answered: adds the elapsed time,
/// applies the quota's checks, checks the output's frame types and limits or
/// applies the failure policy, renumbers the frames, and records the policy
/// decision unless the audit trail already has the step.
pub fn finish_step(
    step: &ComposedStep,
    quota: Option<ResourceQuota>,
    result: Result<Vec<FrameEnvelope>, PipelineError>,
    elapsed_ms: u64,
    decision: PolicyDecision,
    now_ms: u64,
    ctx: &mut ExecutionContext,
) -> (r: Result<Vec<FrameEnvelope>, PipelineError>)
    ensures
        step_yields(*step, quota, outcome_view(result), elapsed_ms, old(ctx).resource_used, outcome_view(r)),
        finish_effects(*step, outcome_view(result), elapsed_ms, decision, now_ms, *old(ctx), *final(ctx), outcome_view(r)),
{
    ctx.resource_used.cpu_ms = ctx.resource_used.cpu_ms.saturating_add(elapsed_ms);
    if let Some(q) = &quota {
        check_step_limits(step, q, elapsed_ms, ctx)?;
    }
    let out = match result {
        Ok(frames) => {
            if find_mistyped(&frames, step.output_type.0) {
                return Err(PipelineError { retryable: false, failed_step_id: step.step_id.clone(), error_kind: ErrorKind::TypeMismatch });
            }
            if quota.is_some() {
                check_frame_limits(step, &frames)?;
            }
            ctx.resource_used.frame_count = ctx.resource_used.frame_count.saturating_add(frames.len() as u64);
            let mut frames = frames;
            renumber(&mut frames);
            frames
        },
        Err(err) => match &step.failure_policy {
            FailurePolicy::FailFast => {
                return Err(err);
            },
            FailurePolicy::Skip => {
                let text = concat2("skipped: ", err.error_kind.debug_text().as_str());
                let ghost prev = ctx.audit@;
                ctx.audit.push(AuditRecord {
                    step_id: step.step_id.clone(),
                    command_id: step.command_id.clone(),
                    decision: text,
                    timestamp_ms: now_ms,
                });
                assert(ctx.audit@.drop_last() =~= prev);
                assert(ctx.audit@[ctx.audit@.len() - 1].step_id@ == step.step_id@);
                Vec::new()
            },
            FailurePolicy::Default(v) => {
                let mut d: Vec<FrameEnvelope> = Vec::new();
                d.push(FrameEnvelope { seq: 0, step_id: step.step_id.clone(), frame_type: step.output_type.0, payload: clone_json(v) });
                d
            },
        },
    };
    if !has_step_record(&ctx.audit, step.step_id.as_str()) {
        let text = decision_name(decision);
        let ghost prev = ctx.audit@;
        ctx.audit.push(AuditRecord {
            step_id: step.step_id.clone(),
            command_id: step.command_id.clone(),
            decision: text,
            timestamp_ms: now_ms,
        });
        assert(ctx.audit@.drop_last() =~= prev);
    }
    Ok(out)
}

// ---------------------------------------------------------------------------
// Executing a step
// ---------------------------------------------------------------------------

/// The first executor registered under the command id.
pub open spec fn find_executor<E>(es: Seq<(String, E)>, id: Seq<char>) -> Option<int> {
    if exists|k: int| 0 <= k < es.len() && (#[trigger] es[k]).0@ == id {
        Some(choose|k: int| 0 <= k < es.len() && (#[trigger] es[k]).0@ == id
            && forall|j: int| 0 <= j < k ==> (#[trigger] es[j]).0@ != id)
    } else {
        None
    }
}

fn lookup_executor<E>(executors: &Vec<(String, E)>, id: &str) -> (r: Option<usize>)
    ensures
        r matches Some(k) ==> k < executors@.len() && find_executor(executors@, id@) == Some(k as int),
        r is None ==> find_executor(executors@, id@) is None,
{
    let mut k: usize = 0;
    while k < executors.len()
        invariant
            k <= executors@.len(),
            forall|j: int| 0 <= j < k ==> (#[trigger] executors@[j]).0@ != id@,
        decreases executors@.len() - k,
    {
        if str_eq(executors[k].0.as_str(), id) {
            assert(executors@[k as int].0@ == id@);
            return Some(k);
        }
        k = k + 1;
    }
    None
}

/// The error of a step that failed for `kind`.
pub open spec fn step_error(step: ComposedStep, retryable: bool, kind: ErrorKind) -> PipelineError {
    PipelineError { retryable, failed_step_id: step.step_id, error_kind: kind }
}

/// The checks made before a step's executor runs, under a quota: the input's
/// frame limits, then the quota's limits with no time spent yet.
pub open spec fn pre_check(step: ComposedStep, input: Seq<FrameEnvelope>, quota: ResourceQuota, used: ResourceUsage) -> Option<
    (Seq<char>, int),
> {
    if frame_limits_check(step, input) is Some {
        frame_limits_check(step, input)
    } else if step_limits_check(quota, 0, used) is Some {
        let (l, c) = step_limits_check(quota, 0, used)->0;
        Some((l, c as int))
    } else {
        None
    }
}

/// Whether `r` and the context `new_ctx` are how a step ends when its policy
/// decision is `decision`: an unknown command, a broken limit, a denial, a
/// required approval or a missing executor fail it with the context as it
/// was; otherwise the executor answers some result, after some time, leaving
/// some context, and `finish_step` makes the rest of it.
pub open spec fn step_outcome<E>(
    step: ComposedStep,
    input: Seq<FrameEnvelope>,
    ms: Seq<PipeCommandManifest>,
    es: Seq<(String, E)>,
    decision: PolicyDecision,
    old_ctx: ExecutionContext,
    new_ctx: ExecutionContext,
    r: Result<Seq<FrameEnvelope>, PipelineError>,
) -> bool {
    match lookup_manifest(ms, step.command_id@) {
        None => r == Err::<Seq<FrameEnvelope>, PipelineError>(step_error(step, false, ErrorKind::CommandNotFound))
            && new_ctx == old_ctx,
        Some(m) => if m.resource_quota is Some && pre_check(step, input, m.resource_quota->0, old_ctx.resource_used) is Some {
            let (limit, current) = pre_check(step, input, m.resource_quota->0, old_ctx.resource_used)->0;
            (r matches Err(e) && is_exceeded(e, step, limit, current as u64)) && new_ctx == old_ctx
        } else if decision == PolicyDecision::Deny {
            r == Err::<Seq<FrameEnvelope>, PipelineError>(step_error(step, false, ErrorKind::SideEffectBlocked))
                && new_ctx == old_ctx
        } else if decision == PolicyDecision::RequireApproval {
            r == Err::<Seq<FrameEnvelope>, PipelineError>(step_error(step, true, ErrorKind::ApprovalRequired))
                && new_ctx == old_ctx
        } else if find_executor(es, step.command_id@) is None {
            r == Err::<Seq<FrameEnvelope>, PipelineError>(step_error(step, false, ErrorKind::CommandNotFound))
                && new_ctx == old_ctx
        } else {
            exists|res: Result<Seq<FrameEnvelope>, PipelineError>, elapsed: u64, mid: ExecutionContext, now: u64|
                #![trigger step_yields(step, m.resource_quota, res, elapsed, mid.resource_used, r), finish_effects(step, res, elapsed, decision, now, mid, new_ctx, r)]
                step_yields(step, m.resource_quota, res, elapsed, mid.resource_used, r) && finish_effects(
                    step,
                    res,
                    elapsed,
                    decision,
                    now,
                    mid,
                    new_ctx,
                    r,
                )
        },
    }
}

/// The frames are of type `t` and numbered from 0 in order.
pub open spec fn frames_typed(frames: Seq<FrameEnvelope>, t: crate::pipe::frame::FrameType) -> bool {
    forall|i: int| 0 <= i < frames.len() ==> (#[trigger] frames[i]).frame_type == t && frames[i].seq == i as u64
}

/// A step that yields frames yields frames of its output type, numbered from 0.
pub proof fn lemma_yield_typed(
    step: ComposedStep,
    quota: Option<ResourceQuota>,
    result: Result<Seq<FrameEnvelope>, PipelineError>,
    elapsed_ms: u64,
    used: ResourceUsage,
    r: Result<Seq<FrameEnvelope>, PipelineError>,
)
    requires
        step_yields(step, quota, result, elapsed_ms, used, r),
    ensures
        r matches Ok(fs) ==> frames_typed(fs, step.output_type.0),
{
    if let Ok(fs) = r {
        if let Ok(frames) = result {
            if first_mistyped(frames, step.output_type.0) is None && !(quota is Some && step_limits_check(quota->0, elapsed_ms, used) is Some) {
                assert forall|i: int| 0 <= i < fs.len() implies (#[trigger] fs[i]).frame_type == step.output_type.0 && fs[i].seq == i as u64 by {
                    assert(!(0 <= i < frames.len() && frames[i].frame_type != step.output_type.0));
                }
            }
        }
    }
}

/// Executes a step whose policy decision is already made: checks the
/// command, the quota's limits and the decision, finds the executor, runs it
/// and finishes the step on its answer.
pub fn execute_step_core<E: CommandExecutor>(
    step: &ComposedStep,
    input_frames: Vec<FrameEnvelope>,
    registry: &CommandRegistry,
    executors: &Vec<(String, E)>,
    ctx: &mut ExecutionContext,
    decision: PolicyDecision,
) -> (r: Result<Vec<FrameEnvelope>, PipelineError>)
    ensures
        step_outcome(*step, input_frames@, registry.manifests(), executors@, decision, *old(ctx), *final(ctx), outcome_view(r)),
        r matches Ok(fs) ==> frames_typed(fs@, step.output_type.0),
{
    let manifest = match registry.inspect(step.command_id.as_str()) {
        Ok(m) => m,
        Err(_) => {
            return Err(PipelineError { retryable: false, failed_step_id: step.step_id.clone(), error_kind: ErrorKind::CommandNotFound });
        },
    };
    if let Some(quota) = &manifest.resource_quota {
        check_frame_limits(step, &input_frames)?;
        check_step_limits(step, quota, 0, ctx)?;
    }
    match decision {
        PolicyDecision::Deny => {
            return Err(PipelineError { retryable: false, failed_step_id: step.step_id.clone(), error_kind: ErrorKind::SideEffectBlocked });
        },
        PolicyDecision::RequireApproval => {
            return Err(PipelineError { retryable: true, failed_step_id: step.step_id.clone(), error_kind: ErrorKind::ApprovalRequired });
        },
        PolicyDecision::Allow => {},
    }
    let k = match lookup_executor(executors, step.command_id.as_str()) {
        Some(k) => k,
        None => {
            return Err(PipelineError { retryable: false, failed_step_id: step.step_id.clone(), error_kind: ErrorKind::CommandNotFound });
        },
    };
    let start = monotonic_now();
    let result = executors[k].1.execute(step, input_frames, ctx);
    let elapsed = elapsed_ms(&start);
    let now = now_ms();
    let ghost mid = *ctx;
    let ghost res = outcome_view(result);
    let r = finish_step(step, manifest.resource_quota, result, elapsed, decision, now, ctx);
    proof {
        lemma_yield_typed(*step, manifest.resource_quota, res, elapsed, mid.resource_used, outcome_view(r));
        assert(step_yields(*step, manifest.resource_quota, res, elapsed, mid.resource_used, outcome_view(r)));
    }
    r
}

/// Executes a step under a policy: asks the policy, then as `execute_step_core`.
pub fn execute_step<E: CommandExecutor, P: StepPolicy>(
    step: &ComposedStep,
    input_frames: Vec<FrameEnvelope>,
    registry: &CommandRegistry,
    executors: &Vec<(String, E)>,
    policy: &P,
    ctx: &mut ExecutionContext,
) -> (r: Result<Vec<FrameEnvelope>, PipelineError>)
    ensures
        step_outcome(*step, input_frames@, registry.manifests(), executors@, policy.decision(*step, *old(ctx)), *old(ctx), *final(ctx), outcome_view(r)),
        r matches Ok(fs) ==> frames_typed(fs@, step.output_type.0),
{
    let d = policy.check(step, ctx);
    execute_step_core(step, input_frames, registry, executors, ctx, d)
}

// ---------------------------------------------------------------------------
// Inputs and the linear run
// ---------------------------------------------------------------------------

/// A copy of the frames.
pub fn clone_frames(frames: &Vec<FrameEnvelope>) -> (r: Vec<FrameEnvelope>)
    ensures
        r@ == frames@,
{
    let mut out: Vec<FrameEnvelope> = Vec::new();
    let mut i: usize = 0;
    while i < frames.len()
        invariant
            i <= frames@.len(),
            out@ == frames@.take(i as int),
        decreases frames@.len() - i,
    {
        out.push(frames[i].clone());
        assert(out@ =~= frames@.take(i + 1));
        i = i + 1;
    }
    assert(frames@.take(i as int) =~= frames@);
    out
}

/// The frames a constant value gives a step of type `t`: one frame per
/// element when the step takes many and the value is an array, else one frame
/// holding the value.
pub open spec fn expanded(step_id: String, t: crate::pipe::frame::TypedFrame, val: serde_json::Value) -> Seq<FrameEnvelope> {
    if t.1 == Cardinality::Many && json_elements(val) is Some {
        let items = json_elements(val)->0;
        Seq::new(
            items.len(),
            |i: int| FrameEnvelope { seq: i as u64, step_id: step_id, frame_type: t.0, payload: items[i] },
        )
    } else {
        seq![FrameEnvelope { seq: 0, step_id: step_id, frame_type: t.0, payload: val }]
    }
}

/// The frames a constant value gives a step (see `expanded`).
pub fn expand_value(step_id: &String, t: crate::pipe::frame::TypedFrame, val: &serde_json::Value) -> (r: Vec<FrameEnvelope>)
    ensures
        r@ == expanded(*step_id, t, *val),
{
    let mut out: Vec<FrameEnvelope> = Vec::new();
    if t.1 == Cardinality::Many {
        if let Some(items) = json_as_array(val) {
            let mut i: usize = 0;
            while i < items.len()
                invariant
                    i <= items@.len(),
                    t.1 == Cardinality::Many,
                    json_elements(*val) == Some(items@),
                    out@ == expanded(*step_id, t, *val).take(i as int),
                decreases items@.len() - i,
            {
                out.push(FrameEnvelope { seq: i as u64, step_id: step_id.clone(), frame_type: t.0, payload: clone_json(&items[i]) });
                assert(out@ =~= expanded(*step_id, t, *val).take(i + 1));
                i = i + 1;
            }
            assert(expanded(*step_id, t, *val).take(i as int) =~= expanded(*step_id, t, *val));
            return out;
        }
    }
    out.push(FrameEnvelope { seq: 0, step_id: step_id.clone(), frame_type: t.0, payload: clone_json(val) });
    assert(out@ =~= expanded(*step_id, t, *val));
    out
}

/// The input a step of a linear run takes: the previous step's output, its
/// constant, or the output of the step it names (none if that step has not
/// run).
pub open spec fn step_input(step: ComposedStep, previous: Seq<FrameEnvelope>, outputs: Map<Seq<char>, Vec<FrameEnvelope>>) -> Seq<
    FrameEnvelope,
> {
    match step.input_binding {
        InputBinding::PreviousStep => previous,
        InputBinding::Constant(v) => expanded(step.step_id, step.input_type, v),
        InputBinding::StepOutput(t) => if outputs.contains_key(t@) {
            outputs[t@]@
        } else {
            Seq::empty()
        },
    }
}

/// The input a step of a linear run takes (see `step_input`).
pub fn resolve_input(step: &ComposedStep, previous_output: &Vec<FrameEnvelope>, step_outputs: &KeyedMap<Vec<FrameEnvelope>>) -> (r: Vec<
    FrameEnvelope,
>)
    requires
        step_outputs.wf(),
    ensures
        r@ == step_input(*step, previous_output@, step_outputs@),
{
    match &step.input_binding {
        InputBinding::PreviousStep => clone_frames(previous_output),
        InputBinding::Constant(v) => expand_value(&step.step_id, step.input_type, v),
        InputBinding::StepOutput(t) => match step_outputs.get(t.as_str()) {
            Some(frames) => clone_frames(frames),
            None => Vec::new(),
        },
    }
}

/// The outputs of the first `i` steps of a linear run, by step id.
pub open spec fn outputs_before(steps: Seq<ComposedStep>, vouts: Seq<Vec<FrameEnvelope>>, i: int) -> Map<Seq<char>, Vec<FrameEnvelope>>
    decreases i,
{
    if i <= 0 {
        Map::empty()
    } else {
        outputs_before(steps, vouts, i - 1).insert(steps[i - 1].step_id@, vouts[i - 1])
    }
}

/// The output of the step before step `i`: the initial frame for the first.
pub open spec fn previous_of(init: FrameEnvelope, vouts: Seq<Vec<FrameEnvelope>>, i: int) -> Seq<FrameEnvelope> {
    if i == 0 {
        seq![init]
    } else {
        vouts[i - 1]@
    }
}

/// The input step `i` of a linear run takes.
pub open spec fn linear_input(steps: Seq<ComposedStep>, init: FrameEnvelope, vouts: Seq<Vec<FrameEnvelope>>, i: int) -> Seq<FrameEnvelope> {
    step_input(steps[i], previous_of(init, vouts, i), outputs_before(steps, vouts, i))
}

/// The first `n` steps ran in order, each under the policy's decision on its
/// input, from context `ctxs[i]` to `ctxs[i + 1]`, giving `vouts[i]`.
pub open spec fn linear_ran<E, P: StepPolicy>(
    steps: Seq<ComposedStep>,
    init: FrameEnvelope,
    ms: Seq<PipeCommandManifest>,
    es: Seq<(String, E)>,
    policy: P,
    vouts: Seq<Vec<FrameEnvelope>>,
    ctxs: Seq<ExecutionContext>,
    n: int,
) -> bool {
    &&& vouts.len() == n
    &&& ctxs.len() == n + 1
    &&& forall|i: int|
        0 <= i < n ==> #[trigger] step_outcome(
            steps[i],
            linear_input(steps, init, vouts, i),
            ms,
            es,
            policy.decision(steps[i], ctxs[i]),
            ctxs[i],
            ctxs[i + 1],
            Ok::<Seq<FrameEnvelope>, PipelineError>(vouts[i]@),
        )
}

/// The initial frame of a linear run: number 0 of step `input`, of the
/// pipeline's input type.
pub open spec fn linear_start(init: FrameEnvelope, pipeline: ComposedPipeline, payload: serde_json::Value) -> bool {
    &&& init.seq == 0
    &&& init.step_id@ == "input"@
    &&& init.frame_type == pipeline.input_type.0
    &&& init.payload == payload
}

proof fn lemma_outputs_before_prefix(steps: Seq<ComposedStep>, vouts: Seq<Vec<FrameEnvelope>>, v: Vec<FrameEnvelope>, i: int)
    requires
        0 <= i <= vouts.len(),
    ensures
        outputs_before(steps, vouts.push(v), i) == outputs_before(steps, vouts, i),
    decreases i,
{
    if i > 0 {
        lemma_outputs_before_prefix(steps, vouts, v, i - 1);
        assert(vouts.push(v)[i - 1] == vouts[i - 1]);
    }
}

/// Runs a composed pipeline: each step in order takes its input and is
/// executed under the policy; the first failure ends the run. A pipeline
/// without steps fails as a whole. The output is the last step's frames, of
/// its output type and numbered from 0, with the audit trail.
pub fn run<E: CommandExecutor, P: StepPolicy>(
    pipeline: &ComposedPipeline,
    initial_input: serde_json::Value,
    registry: &CommandRegistry,
    executors: &Vec<(String, E)>,
    policy: &P,
    ctx: &mut ExecutionContext,
) -> (r: Result<RunResult, PipelineError>)
    ensures
        pipeline.steps@.len() == 0 ==> (r matches Err(e) && !e.retryable && e.failed_step_id@ == Seq::<char>::empty()
            && e.error_kind == ErrorKind::ComposeFailed),
        r matches Ok(res) ==> pipeline.steps@.len() > 0 && frames_typed(res.output@, pipeline.steps@.last().output_type.0)
            && res.audit@ == final(ctx).audit@,
        r matches Ok(res) ==> exists|init: FrameEnvelope, vouts: Seq<Vec<FrameEnvelope>>, ctxs: Seq<ExecutionContext>|
            #[trigger] linear_ran(pipeline.steps@, init, registry.manifests(), executors@, *policy, vouts, ctxs, pipeline.steps@.len() as int)
                && linear_start(init, *pipeline, initial_input) && ctxs[0] == *old(ctx) && ctxs.last() == *final(ctx)
                && res.output@ == vouts.last()@,
        pipeline.steps@.len() > 0 ==> (r matches Err(e) ==> exists|init: FrameEnvelope, vouts: Seq<Vec<FrameEnvelope>>, ctxs: Seq<ExecutionContext>, k: int|
            #[trigger] linear_ran(pipeline.steps@, init, registry.manifests(), executors@, *policy, vouts, ctxs, k) && 0 <= k
                < pipeline.steps@.len() && linear_start(init, *pipeline, initial_input) && ctxs[0] == *old(ctx) && step_outcome(
                pipeline.steps@[k],
                linear_input(pipeline.steps@, init, vouts, k),
                registry.manifests(),
                executors@,
                policy.decision(pipeline.steps@[k], ctxs[k]),
                ctxs[k],
                *final(ctx),
                Err::<Seq<FrameEnvelope>, PipelineError>(e),
            )),
{
    if pipeline.steps.len() == 0 {
        return Err(crate::pipe::dry_run::run_level_failure());
    }
    let ghost ms = registry.manifests();
    let ghost es = executors@;
    let ghost steps = pipeline.steps@;
    let ghost payload = initial_input;
    let mut step_outputs: KeyedMap<Vec<FrameEnvelope>> = KeyedMap::new();
    let mut previous_output: Vec<FrameEnvelope> = Vec::new();
    previous_output.push(FrameEnvelope {
        seq: 0,
        step_id: owned("input"),
        frame_type: pipeline.input_type.0,
        payload: initial_input,
    });
    let ghost init = previous_output@[0];
    let ghost mut vouts: Seq<Vec<FrameEnvelope>> = Seq::empty();
    let ghost mut ctxs: Seq<ExecutionContext> = seq![*ctx];
    let ghost ctx0 = *ctx;
    assert(previous_output@ =~= seq![init]);
    let mut i: usize = 0;
    while i < pipeline.steps.len()
        invariant
            i <= pipeline.steps@.len(),
            pipeline.steps@.len() > 0,
            step_outputs.wf(),
            i > 0 ==> frames_typed(previous_output@, pipeline.steps@[i - 1].output_type.0),
            steps == pipeline.steps@,
            ms == registry.manifests(),
            es == executors@,
            linear_start(init, *pipeline, payload),
            linear_ran(steps, init, ms, es, *policy, vouts, ctxs, i as int),
            ctxs[0] == ctx0,
            ctx0 == *old(ctx),
            payload == initial_input,
            ctxs[i as int] == *ctx,
            step_outputs@ == outputs_before(steps, vouts, i as int),
            previous_output@ == previous_of(init, vouts, i as int),
        decreases pipeline.steps@.len() - i,
    {
        let step = &pipeline.steps[i];
        let input_frames = resolve_input(step, &previous_output, &step_outputs);
        let ghost c_before = *ctx;
        let result = execute_step(step, input_frames, registry, executors, policy, ctx);
        let output_frames = match result {
            Ok(frames) => frames,
            Err(e) => {
                proof {
                    assert(linear_input(steps, init, vouts, i as int) == input_frames@);
                    assert(c_before == ctxs[i as int]);
                    assert(step_outcome(
                        steps[i as int],
                        linear_input(steps, init, vouts, i as int),
                        ms,
                        es,
                        policy.decision(steps[i as int], ctxs[i as int]),
                        ctxs[i as int],
                        *ctx,
                        Err::<Seq<FrameEnvelope>, PipelineError>(e),
                    ));
                    assert(linear_ran(steps, init, ms, es, *policy, vouts, ctxs, i as int));
                }
                return Err(e);
            },
        };
        let kept = clone_frames(&output_frames);
        proof {
            let v2 = vouts.push(output_frames);
            let c2 = ctxs.push(*ctx);
            lemma_outputs_before_prefix(steps, vouts, output_frames, i as int);
            assert forall|j: int| 0 <= j < i + 1 implies #[trigger] step_outcome(
                steps[j],
                linear_input(steps, init, v2, j),
                ms,
                es,
                policy.decision(steps[j], c2[j]),
                c2[j],
                c2[j + 1],
                Ok::<Seq<FrameEnvelope>, PipelineError>(v2[j]@),
            ) by {
                if j < i {
                    lemma_outputs_before_prefix(steps, vouts, output_frames, j);
                    assert(linear_input(steps, init, v2, j) == linear_input(steps, init, vouts, j));
                    assert(step_outcome(
                        steps[j],
                        linear_input(steps, init, vouts, j),
                        ms,
                        es,
                        policy.decision(steps[j], ctxs[j]),
                        ctxs[j],
                        ctxs[j + 1],
                        Ok::<Seq<FrameEnvelope>, PipelineError>(vouts[j]@),
                    ));
                } else {
                    assert(linear_input(steps, init, v2, j) == input_frames@);
                }
            }
            vouts = v2;
            ctxs = c2;
        }
        previous_output = kept;
        step_outputs.insert(step.step_id.clone(), output_frames);
        i = i + 1;
    }
    let audit = clone_audit(&ctx.audit);
    Ok(RunResult { output: previous_output, audit })
}

/// A copy of the audit trail.
pub fn clone_audit(audit: &Vec<AuditRecord>) -> (r: Vec<AuditRecord>)
    ensures
        r@ == audit@,
{
    let mut out: Vec<AuditRecord> = Vec::new();
    let mut i: usize = 0;
    while i < audit.len()
        invariant
            i <= audit@.len(),
            out@ == audit@.take(i as int),
        decreases audit@.len() - i,
    {
        out.push(audit[i].clone());
        assert(out@ =~= audit@.take(i + 1));
        i = i + 1;
    }
    assert(audit@.take(i as int) =~= audit@);
    out
}

} // verus!
