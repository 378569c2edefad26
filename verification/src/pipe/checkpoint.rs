//! Checkpoints of DAG steps, their storage, and retrying failed steps.

use vstd::prelude::*;

use crate::clock::now_ms;
use crate::keyed::KeyedMap;
use crate::pipe::ast::{ComposedStep, DagPipeline, DagStep};
use crate::pipe::dry_run::{ErrorKind, FrameEnvelope, PipelineError};
use crate::pipe::registry::{CommandRegistry, PipeCommandManifest};
use crate::pipe::run::{
    clone_frames, execute_step_core, frames_typed, outcome_view, step_error, step_outcome, CommandExecutor,
    ExecutionContext, ResourceUsage, StepPolicy, StepState,
};
use crate::policy::types::PolicyDecision;
use crate::text::concat2;

verus! {

#[derive(Debug, Clone, PartialEq, Eq)]
pub enum CheckpointError {
    StorageError(String),
}

pub open spec fn checkpoint_error_text(e: CheckpointError) -> Seq<char> {
    match e {
        CheckpointError::StorageError(m) => "checkpoint storage error: "@ + m@,
    }
}

impl CheckpointError {
    /// The error message.
    pub fn to_string(&self) -> (r: String)
        ensures
            r@ == checkpoint_error_text(*self),
    {
        match self {
            CheckpointError::StorageError(m) => concat2("checkpoint storage error: ", m.as_str()),
        }
    }
}

/// What a step left behind: its output, its end state and the resources used.
#[derive(Debug, PartialEq, Eq)]
pub struct Checkpoint {
    pub pipeline_id: String,
    pub step_id: String,
    pub output_frames: Vec<FrameEnvelope>,
    pub step_state: StepState,
    pub resource_used: ResourceUsage,
    pub timestamp_ms: u64,
}

/// A checkpoint by its contents, with its frames as a sequence.
pub type CheckpointView = (Seq<char>, Seq<char>, Seq<FrameEnvelope>, StepState, ResourceUsage, u64);

/// The contents of a checkpoint.
pub open spec fn cp_view(c: Checkpoint) -> CheckpointView {
    (c.pipeline_id@, c.step_id@, c.output_frames@, c.step_state, c.resource_used, c.timestamp_ms)
}

/// The contents of each checkpoint.
pub open spec fn cp_views(cs: Seq<Checkpoint>) -> Seq<CheckpointView> {
    cs.map_values(|c: Checkpoint| cp_view(c))
}

impl Clone for Checkpoint {
    fn clone(&self) -> (r: Self)
        ensures
            cp_view(r) == cp_view(*self),
    {
        Checkpoint {
            pipeline_id: self.pipeline_id.clone(),
            step_id: self.step_id.clone(),
            output_frames: clone_frames(&self.output_frames),
            step_state: self.step_state,
            resource_used: self.resource_used,
            timestamp_ms: self.timestamp_ms,
        }
    }
}

/// Where checkpoints are kept, per pipeline, in the order saved.
pub trait CheckpointStore {
    /// Whether `after` is what this store becomes, and `r` what it answers,
    /// when `checkpoint` is saved into it.
    spec fn saves(&self, after: &Self, checkpoint: Checkpoint, r: Result<(), CheckpointError>) -> bool;

    /// Keeps a checkpoint.
    fn save(&mut self, checkpoint: &Checkpoint) -> (r: Result<(), CheckpointError>)
        ensures
            old(self).saves(final(self), *checkpoint, r),
    ;

    /// The checkpoints this store holds for a pipeline, in the order saved.
    spec fn stored(&self, pipeline_id: Seq<char>) -> Seq<CheckpointView>;

    /// The pipeline's last checkpoint.
    fn load_latest(&self, pipeline_id: &str) -> (r: Result<Option<Checkpoint>, CheckpointError>)
        ensures
            r matches Ok(o) ==> (o is None <==> self.stored(pipeline_id@).len() == 0),
            r matches Ok(Some(c)) ==> cp_view(c) == self.stored(pipeline_id@).last(),
    ;

    /// The pipeline's checkpoints, in the order saved.
    fn load_all(&self, pipeline_id: &str) -> (r: Result<Vec<Checkpoint>, CheckpointError>)
        ensures
            r matches Ok(v) ==> cp_views(v@) == self.stored(pipeline_id@),
    ;

    /// Forgets the pipeline's checkpoints.
    fn clear(&mut self, pipeline_id: &str) -> Result<(), CheckpointError>;
}

/// Checkpoints kept in memory.
pub struct InMemoryCheckpointStore {
    data: KeyedMap<Vec<Checkpoint>>,
}

impl InMemoryCheckpointStore {
    /// The checkpoints kept for a pipeline, in the order saved.
    pub closed spec fn saved(&self, pipeline_id: Seq<char>) -> Seq<CheckpointView> {
        if self.data@.contains_key(pipeline_id) {
            cp_views(self.data@[pipeline_id]@)
        } else {
            Seq::empty()
        }
    }

    #[verifier::type_invariant]
    spec fn inv(&self) -> bool {
        self.data.wf()
    }

    pub fn new() -> (r: Self)
        ensures
            forall|p: Seq<char>| #[trigger] r.saved(p) == Seq::<CheckpointView>::empty(),
    {
        InMemoryCheckpointStore { data: KeyedMap::new() }
    }
}

impl CheckpointStore for InMemoryCheckpointStore {
    open spec fn stored(&self, pipeline_id: Seq<char>) -> Seq<CheckpointView> {
        self.saved(pipeline_id)
    }

    /// Saving always succeeds and appends the checkpoint to its pipeline's
    /// list; the other lists are kept.
    open spec fn saves(&self, after: &Self, checkpoint: Checkpoint, r: Result<(), CheckpointError>) -> bool {
        &&& r is Ok
        &&& after.saved(checkpoint.pipeline_id@) == self.saved(checkpoint.pipeline_id@).push(cp_view(checkpoint))
        &&& forall|p: Seq<char>| p != checkpoint.pipeline_id@ ==> #[trigger] after.saved(p) == self.saved(p)
    }

    fn save(&mut self, checkpoint: &Checkpoint) -> (r: Result<(), CheckpointError>)
        ensures
            r is Ok,
            final(self).saved(checkpoint.pipeline_id@) == old(self).saved(checkpoint.pipeline_id@).push(cp_view(*checkpoint)),
            forall|p: Seq<char>| p != checkpoint.pipeline_id@ ==> #[trigger] final(self).saved(p) == old(self).saved(p),
    {
        proof { use_type_invariant(&*self); }
        let mut list = match self.data.get(checkpoint.pipeline_id.as_str()) {
            Some(v) => clone_checkpoints(v),
            None => Vec::new(),
        };
        let ghost before = list@;
        list.push(checkpoint.clone());
        assert(cp_views(list@) =~= cp_views(before).push(cp_view(*checkpoint)));
        let mut d = KeyedMap::new();
        std::mem::swap(&mut d, &mut self.data);
        d.insert(checkpoint.pipeline_id.clone(), list);
        self.data = d;
        let r: Result<(), CheckpointError> = Ok(());
        assert(self.saved(checkpoint.pipeline_id@) == old(self).saved(checkpoint.pipeline_id@).push(cp_view(*checkpoint)));
        assert(forall|p: Seq<char>| p != checkpoint.pipeline_id@ ==> #[trigger] self.saved(p) == old(self).saved(p));
        r
    }

    fn load_latest(&self, pipeline_id: &str) -> (r: Result<Option<Checkpoint>, CheckpointError>)
        ensures
            self.saved(pipeline_id@).len() == 0 ==> r == Ok::<Option<Checkpoint>, CheckpointError>(None),
            self.saved(pipeline_id@).len() > 0 ==> (r matches Ok(Some(c)) && cp_view(c) == self.saved(pipeline_id@).last()),
    {
        proof { use_type_invariant(self); }
        match self.data.get(pipeline_id) {
            Some(v) => {
                if v.len() == 0 {
                    Ok(None)
                } else {
                    Ok(Some(v[v.len() - 1].clone()))
                }
            },
            None => Ok(None),
        }
    }

    fn load_all(&self, pipeline_id: &str) -> (r: Result<Vec<Checkpoint>, CheckpointError>)
        ensures
            r matches Ok(v) && cp_views(v@) == self.saved(pipeline_id@),
    {
        proof { use_type_invariant(self); }
        match self.data.get(pipeline_id) {
            Some(v) => Ok(clone_checkpoints(v)),
            None => Ok(Vec::new()),
        }
    }

    fn clear(&mut self, pipeline_id: &str) -> (r: Result<(), CheckpointError>)
        ensures
            r is Ok,
            final(self).saved(pipeline_id@) == Seq::<CheckpointView>::empty(),
            forall|p: Seq<char>| p != pipeline_id@ ==> #[trigger] final(self).saved(p) == old(self).saved(p),
    {
        proof { use_type_invariant(&*self); }
        let mut d = KeyedMap::new();
        std::mem::swap(&mut d, &mut self.data);
        d.insert(crate::text::owned(pipeline_id), Vec::new());
        self.data = d;
        Ok(())
    }
}

/// After a checkpoint is saved, it is the latest one of its pipeline, and the
/// earlier ones are kept in order before it.
pub proof fn law_saved_checkpoint_is_latest(
    before: InMemoryCheckpointStore,
    after: InMemoryCheckpointStore,
    checkpoint: Checkpoint,
)
    requires
        after.saved(checkpoint.pipeline_id@) == before.saved(checkpoint.pipeline_id@).push(cp_view(checkpoint)),
    ensures
        after.saved(checkpoint.pipeline_id@).len() > 0,
        after.saved(checkpoint.pipeline_id@).last() == cp_view(checkpoint),
        after.saved(checkpoint.pipeline_id@).drop_last() == before.saved(checkpoint.pipeline_id@),
{
    assert(after.saved(checkpoint.pipeline_id@).drop_last() =~= before.saved(checkpoint.pipeline_id@));
}

/// A copy of the checkpoints.
pub fn clone_checkpoints(v: &Vec<Checkpoint>) -> (r: Vec<Checkpoint>)
    ensures
        cp_views(r@) == cp_views(v@),
{
    let mut out: Vec<Checkpoint> = Vec::new();
    let mut i: usize = 0;
    while i < v.len()
        invariant
            i <= v@.len(),
            cp_views(out@) == cp_views(v@.take(i as int)),
        decreases v@.len() - i,
    {
        let ghost before = out@;
        out.push(v[i].clone());
        assert(cp_views(out@) =~= cp_views(before).push(cp_view(v@[i as int])));
        assert(cp_views(v@.take(i + 1)) =~= cp_views(v@.take(i as int)).push(cp_view(v@[i as int])));
        i = i + 1;
    }
    assert(v@.take(i as int) =~= v@);
    out
}

/// How often a step is tried and how long to wait between tries.
#[derive(Debug, Clone, Copy, PartialEq, Eq, Structural)]
pub struct RetryPolicy {
    pub max_attempts: u32,
    pub backoff_ms: u64,
}

/// Waits between tries of a step.
pub trait Backoff {
    /// Waits about `ms` milliseconds.
    fn wait_ms(&mut self, ms: u64);
}

/// Whether `r` and `new_ctx` are what the try `k` of at most `max` tries
/// ended with: the outcome of the step run from some context, and a
/// retryable failure only once all tries are used.
pub open spec fn try_ended<E>(
    step: ComposedStep,
    input: Seq<FrameEnvelope>,
    ms: Seq<PipeCommandManifest>,
    es: Seq<(String, E)>,
    k: int,
    max: int,
    from: ExecutionContext,
    new_ctx: ExecutionContext,
    r: Result<Seq<FrameEnvelope>, PipelineError>,
) -> bool {
    &&& 1 <= k <= max
    &&& step_outcome(step, input, ms, es, PolicyDecision::Allow, from, new_ctx, r)
    &&& (r matches Err(e) && e.retryable) ==> k == max
}

/// Tries an allowed step up to `max_attempts` times while it fails with a
/// retryable error, waiting the backoff between tries; the first success,
/// the first error that is not retryable, or the last error ends it.
pub fn execute_step_with_retry_unchecked<E: CommandExecutor, B: Backoff>(
    step: &ComposedStep,
    input_frames: Vec<FrameEnvelope>,
    registry: &CommandRegistry,
    executors: &Vec<(String, E)>,
    ctx: &mut ExecutionContext,
    retry_policy: &RetryPolicy,
    backoff: &mut B,
) -> (r: Result<Vec<FrameEnvelope>, PipelineError>)
    requires
        retry_policy.max_attempts >= 1,
    ensures
        exists|k: int, from: ExecutionContext| #[trigger] try_ended(*step, input_frames@, registry.manifests(), executors@, k, retry_policy.max_attempts as int, from, *final(ctx), outcome_view(r)),
        r matches Ok(fs) ==> frames_typed(fs@, step.output_type.0),
{
    let mut attempt: u32 = 1;
    loop
        invariant
            1 <= attempt <= retry_policy.max_attempts,
        decreases retry_policy.max_attempts - attempt,
    {
        let ghost from = *ctx;
        let result = execute_step_core(step, clone_frames(&input_frames), registry, executors, ctx, PolicyDecision::Allow);
        proof {
            assert(try_ended(*step, input_frames@, registry.manifests(), executors@, attempt as int, retry_policy.max_attempts as int, from, *ctx, outcome_view(result)) || (result matches Err(e) && e.retryable && attempt < retry_policy.max_attempts));
        }
        match result {
            Ok(frames) => {
                return Ok(frames);
            },
            Err(err) => {
                if !err.retryable || attempt >= retry_policy.max_attempts {
                    return Err(err);
                }
                backoff.wait_ms(retry_policy.backoff_ms);
            },
        }
        attempt = attempt + 1;
    }
}

/// Asks the policy, then tries the step as `execute_step_with_retry_unchecked`;
/// a denial or a required approval ends it before any try.
pub fn execute_step_with_retry<E: CommandExecutor, P: StepPolicy, B: Backoff>(
    step: &ComposedStep,
    input_frames: Vec<FrameEnvelope>,
    registry: &CommandRegistry,
    executors: &Vec<(String, E)>,
    policy: &P,
    ctx: &mut ExecutionContext,
    retry_policy: &RetryPolicy,
    backoff: &mut B,
) -> (r: Result<Vec<FrameEnvelope>, PipelineError>)
    requires
        retry_policy.max_attempts >= 1,
    ensures
        policy.decision(*step, *old(ctx)) == PolicyDecision::Deny ==> r == Err::<Vec<FrameEnvelope>, PipelineError>(
            step_error(*step, false, ErrorKind::SideEffectBlocked),
        ) && *final(ctx) == *old(ctx),
        policy.decision(*step, *old(ctx)) == PolicyDecision::RequireApproval ==> r == Err::<Vec<FrameEnvelope>, PipelineError>(
            step_error(*step, true, ErrorKind::ApprovalRequired),
        ) && *final(ctx) == *old(ctx),
        policy.decision(*step, *old(ctx)) == PolicyDecision::Allow ==> exists|k: int, from: ExecutionContext| #[trigger] try_ended(*step, input_frames@, registry.manifests(), executors@, k, retry_policy.max_attempts as int, from, *final(ctx), outcome_view(r)),
        r matches Ok(fs) ==> frames_typed(fs@, step.output_type.0),
{
    match policy.check(step, ctx) {
        PolicyDecision::Deny => Err(PipelineError { retryable: false, failed_step_id: step.step_id.clone(), error_kind: ErrorKind::SideEffectBlocked }),
        PolicyDecision::RequireApproval => Err(PipelineError { retryable: true, failed_step_id: step.step_id.clone(), error_kind: ErrorKind::ApprovalRequired }),
        PolicyDecision::Allow => execute_step_with_retry_unchecked(step, input_frames, registry, executors, ctx, retry_policy, backoff),
    }
}

/// The checkpoint a step leaves.
pub open spec fn checkpoint_of(dag: DagPipeline, step: DagStep, frames: Seq<FrameEnvelope>, state: StepState, used: ResourceUsage, cp: Checkpoint) -> bool {
    &&& cp.pipeline_id == dag.pipeline_id
    &&& cp.step_id == step.composed.step_id
    &&& cp.output_frames@ == frames
    &&& cp.step_state == state
    &&& cp.resource_used == used
}

/// The checkpoint a step leaves, timed now.
pub fn make_checkpoint(dag: &DagPipeline, step: &DagStep, output_frames: &Vec<FrameEnvelope>, step_state: StepState, ctx: &ExecutionContext) -> (r: Checkpoint)
    ensures
        checkpoint_of(*dag, *step, output_frames@, step_state, ctx.resource_used, r),
{
    Checkpoint {
        pipeline_id: dag.pipeline_id.clone(),
        step_id: step.composed.step_id.clone(),
        output_frames: clone_frames(output_frames),
        step_state,
        resource_used: ctx.resource_used,
        timestamp_ms: now_ms(),
    }
}

/// Saves a step's checkpoint; a storage failure fails the step.
pub fn save_checkpoint<S: CheckpointStore>(
    store: &mut S,
    dag: &DagPipeline,
    step: &DagStep,
    output_frames: &Vec<FrameEnvelope>,
    step_state: StepState,
    ctx: &ExecutionContext,
) -> (r: Result<(), PipelineError>)
    ensures
        exists|cp: Checkpoint, answer: Result<(), CheckpointError>|
            #[trigger] old(store).saves(final(store), cp, answer) && checkpoint_of(*dag, *step, output_frames@, step_state, ctx.resource_used, cp)
                && (r is Ok <==> answer is Ok),
        r matches Err(e) ==> e == step_error(step.composed, false, ErrorKind::ComposeFailed),
{
    let cp = make_checkpoint(dag, step, output_frames, step_state, ctx);
    let answer = store.save(&cp);
    match answer {
        Ok(()) => Ok(()),
        Err(_) => Err(PipelineError { retryable: false, failed_step_id: step.composed.step_id.clone(), error_kind: ErrorKind::ComposeFailed }),
    }
}

} // verus!
