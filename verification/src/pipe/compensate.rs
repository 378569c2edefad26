//! Undoing the completed steps of a DAG run, last first.

use vstd::prelude::*;

use crate::pipe::ast::{ComposedStep, DagPipeline};
use crate::pipe::checkpoint::{cp_views, Checkpoint, CheckpointStore};
use crate::pipe::dry_run::{error_kind_name, ErrorKind, FrameEnvelope, PipelineError};
use crate::pipe::registry::CommandRegistry;
use crate::pipe::run::{find_executor, outcome_view, CommandExecutor, ExecutionContext, StepState};
use crate::text::str_eq;

verus! {

/// The outcome of compensating one step.
#[derive(Debug, Clone, PartialEq, Eq)]
pub struct CompensationRecord {
    pub step_id: String,
    pub success: bool,
    pub error: Option<String>,
}

/// An executor that can also undo what it did.
pub trait CompensatingExecutor: CommandExecutor {
    /// Whether `result` is what this compensator may give for `step` and the
    /// output it produced.
    spec fn compensates(&self, step: &ComposedStep, executed_output: &[FrameEnvelope], result: &Result<Vec<FrameEnvelope>, PipelineError>) -> bool;

    /// Undoes a step given the output it produced.
    fn compensate(&self, step: &ComposedStep, executed_output: &[FrameEnvelope], ctx: &mut ExecutionContext) -> (r: Result<
        Vec<FrameEnvelope>,
        PipelineError,
    >)
        ensures
            self.compensates(step, executed_output, &r),
    ;
}

/// The record of a compensation's result: a success with no error, or a
/// failure carrying the name of the error's kind.
pub fn compensation_record(step_id: &String, result: &Result<Vec<FrameEnvelope>, PipelineError>) -> (r: CompensationRecord)
    ensures
        record_of(step_id@, outcome_view(*result), r),
        r.step_id == *step_id,
{
    match result {
        Ok(_) => CompensationRecord { step_id: step_id.clone(), success: true, error: None },
        Err(err) => CompensationRecord { step_id: step_id.clone(), success: false, error: Some(err.error_kind.to_string()) },
    }
}

/// The record of compensating step `idx`: what the compensator registered
/// for its command gave, handed the step and the output of its first
/// checkpoint.
#[verifier::opaque]
pub open spec fn compensation_done<C: CompensatingExecutor>(
    dag: DagPipeline,
    cps: Seq<Checkpoint>,
    cs: Seq<(String, C)>,
    idx: int,
    rec: CompensationRecord,
) -> bool {
    let step = dag.steps@[idx];
    let k = first_checkpoint(cps, step.composed.step_id@)->0;
    let c = find_executor(cs, step.composed.command_id@)->0;
    exists|out: &[FrameEnvelope], res: Result<Vec<FrameEnvelope>, PipelineError>|
        out@ == cps[k].output_frames@ && #[trigger] cs[c].1.compensates(&step.composed, out, &res) && record_of(
            step.composed.step_id@,
            outcome_view(res),
            rec,
        )
}

/// The first checkpoint of a step.
pub open spec fn first_checkpoint(cps: Seq<Checkpoint>, step_id: Seq<char>) -> Option<int> {
    if exists|k: int| 0 <= k < cps.len() && (#[trigger] cps[k]).step_id@ == step_id {
        Some(choose|k: int| 0 <= k < cps.len() && (#[trigger] cps[k]).step_id@ == step_id
            && forall|j: int| 0 <= j < k ==> (#[trigger] cps[j]).step_id@ != step_id)
    } else {
        None
    }
}

/// Whether the step at `i` is compensated: its first checkpoint says it
/// completed, and a compensator is registered for its command.
#[verifier::opaque]
pub open spec fn compensated<C>(dag: DagPipeline, cps: Seq<Checkpoint>, cs: Seq<(String, C)>, i: int) -> bool {
    let step = dag.steps@[i];
    &&& first_checkpoint(cps, step.composed.step_id@) matches Some(k) && cps[k].step_state == StepState::Completed
    &&& find_executor(cs, step.composed.command_id@) is Some
}

/// The steps compensated, last first: those among the first `n` steps that
/// `compensated` picks, from step `n - 1` down.
pub open spec fn rollback_order<C>(dag: DagPipeline, cps: Seq<Checkpoint>, cs: Seq<(String, C)>, n: int) -> Seq<int>
    decreases n,
{
    if n <= 0 {
        Seq::empty()
    } else if compensated(dag, cps, cs, n - 1) {
        seq![n - 1] + rollback_order(dag, cps, cs, n - 1)
    } else {
        rollback_order(dag, cps, cs, n - 1)
    }
}

/// The record of compensating a step: success, or the name of what failed.
pub open spec fn record_of(step_id: Seq<char>, result: Result<Seq<FrameEnvelope>, PipelineError>, rec: CompensationRecord) -> bool {
    &&& rec.step_id@ == step_id
    &&& rec.success == (result is Ok)
    &&& match result {
        Ok(_) => rec.error is None,
        Err(e) => rec.error matches Some(t) && t@ == error_kind_name(e.error_kind),
    }
}

proof fn lemma_compensation_done<C: CompensatingExecutor>(
    dag: DagPipeline,
    cps: Seq<Checkpoint>,
    cs: Seq<(String, C)>,
    idx: int,
    k: int,
    c: int,
    out: &[FrameEnvelope],
    res: Result<Vec<FrameEnvelope>, PipelineError>,
    rec: CompensationRecord,
)
    requires
        first_checkpoint(cps, dag.steps@[idx].composed.step_id@) == Some(k),
        find_executor(cs, dag.steps@[idx].composed.command_id@) == Some(c),
        out@ == cps[k].output_frames@,
        cs[c].1.compensates(&dag.steps@[idx].composed, out, &res),
        record_of(dag.steps@[idx].composed.step_id@, outcome_view(res), rec),
    ensures
        compensation_done(dag, cps, cs, idx, rec),
{
    reveal(compensation_done);
    let step = dag.steps@[idx];
    assert(first_checkpoint(cps, step.composed.step_id@)->0 == k);
    assert(find_executor(cs, step.composed.command_id@)->0 == c);
    assert(out@ == cps[k].output_frames@ && cs[c].1.compensates(&step.composed, out, &res) && record_of(
        step.composed.step_id@,
        outcome_view(res),
        rec,
    ));
}

/// The records so far follow the steps in `done`, each the record of that
/// step's compensation.
pub open spec fn records_follow<C: CompensatingExecutor>(
    dag: DagPipeline,
    cps: Seq<Checkpoint>,
    cs: Seq<(String, C)>,
    done: Seq<int>,
    recs: Seq<CompensationRecord>,
) -> bool {
    &&& recs.len() == done.len()
    &&& forall|j: int|
        0 <= j < done.len() ==> 0 <= #[trigger] done[j] < dag.steps@.len() && recs[j].step_id == dag.steps@[done[j]].composed.step_id
            && compensation_done(dag, cps, cs, done[j], recs[j])
}

proof fn lemma_records_push<C: CompensatingExecutor>(
    dag: DagPipeline,
    cps: Seq<Checkpoint>,
    cs: Seq<(String, C)>,
    done: Seq<int>,
    recs: Seq<CompensationRecord>,
    i: int,
    rec: CompensationRecord,
)
    requires
        records_follow(dag, cps, cs, done, recs),
        0 <= i < dag.steps@.len(),
        rec.step_id == dag.steps@[i].composed.step_id,
        compensation_done(dag, cps, cs, i, rec),
    ensures
        records_follow(dag, cps, cs, done.push(i), recs.push(rec)),
{
    assert forall|j: int| 0 <= j < done.push(i).len() implies 0 <= #[trigger] done.push(i)[j] < dag.steps@.len()
        && recs.push(rec)[j].step_id == dag.steps@[done.push(i)[j]].composed.step_id && compensation_done(
        dag,
        cps,
        cs,
        done.push(i)[j],
        recs.push(rec)[j],
    ) by {
        if j < done.len() {
            assert(done.push(i)[j] == done[j]);
            assert(recs.push(rec)[j] == recs[j]);
        }
    }
}

fn first_checkpoint_exec(cps: &Vec<Checkpoint>, step_id: &str) -> (r: Option<usize>)
    ensures
        r matches Some(k) ==> k < cps@.len() && first_checkpoint(cps@, step_id@) == Some(k as int),
        r is None ==> first_checkpoint(cps@, step_id@) is None,
{
    let mut k: usize = 0;
    while k < cps.len()
        invariant
            k <= cps@.len(),
            forall|j: int| 0 <= j < k ==> (#[trigger] cps@[j]).step_id@ != step_id@,
        decreases cps@.len() - k,
    {
        if str_eq(cps[k].step_id.as_str(), step_id) {
            assert(cps@[k as int].step_id@ == step_id@);
            return Some(k);
        }
        k = k + 1;
    }
    None
}

fn compensator_for<C>(cs: &Vec<(String, C)>, id: &str) -> (r: Option<usize>)
    ensures
        r matches Some(k) ==> k < cs@.len() && find_executor(cs@, id@) == Some(k as int),
        r is None ==> find_executor(cs@, id@) is None,
{
    let mut k: usize = 0;
    while k < cs.len()
        invariant
            k <= cs@.len(),
            forall|j: int| 0 <= j < k ==> (#[trigger] cs@[j]).0@ != id@,
        decreases cs@.len() - k,
    {
        if str_eq(cs[k].0.as_str(), id) {
            assert(cs@[k as int].0@ == id@);
            return Some(k);
        }
        k = k + 1;
    }
    None
}

proof fn lemma_order_bounds<C>(dag: DagPipeline, cps: Seq<Checkpoint>, cs: Seq<(String, C)>, n: int)
    ensures
        forall|j: int| 0 <= j < rollback_order(dag, cps, cs, n).len() ==> 0 <= #[trigger] rollback_order(dag, cps, cs, n)[j] < n,
    decreases n,
{
    if n > 0 {
        lemma_order_bounds(dag, cps, cs, n - 1);
        let prev = rollback_order(dag, cps, cs, n - 1);
        if compensated(dag, cps, cs, n - 1) {
            assert forall|j: int| 0 <= j < rollback_order(dag, cps, cs, n).len() implies 0 <= #[trigger] rollback_order(dag, cps, cs, n)[j] < n by {
                if j > 0 {
                    assert(rollback_order(dag, cps, cs, n)[j] == prev[j - 1]);
                }
            }
        }
    }
}

fn plan_step<C>(dag: &DagPipeline, cps: &Vec<Checkpoint>, cs: &Vec<(String, C)>, i: usize) -> (r: Option<(usize, usize)>)
    requires
        i < dag.steps@.len(),
    ensures
        r is Some <==> compensated(*dag, cps@, cs@, i as int),
        r matches Some((k, c)) ==> k < cps@.len() && c < cs@.len() && first_checkpoint(cps@, dag.steps@[i as int].composed.step_id@)
            == Some(k as int) && find_executor(cs@, dag.steps@[i as int].composed.command_id@) == Some(c as int),
{
    reveal(compensated);
    let step = &dag.steps[i];
    match first_checkpoint_exec(cps, step.composed.step_id.as_str()) {
        Some(k) => {
            if cps[k].step_state == StepState::Completed {
                match compensator_for(cs, step.composed.command_id.as_str()) {
                    Some(c) => Some((k, c)),
                    None => None,
                }
            } else {
                None
            }
        },
        None => None,
    }
}

/// Compensates the completed steps of a DAG, last first, with the
/// compensators registered for their commands; each compensation gives a
/// record. Failing to load the checkpoints fails the rollback as a whole.
#[verifier::spinoff_prover]
pub fn rollback_dag<S: CheckpointStore, C: CompensatingExecutor>(
    dag: &DagPipeline,
    checkpoint_store: &S,
    registry: &CommandRegistry,
    compensators: &Vec<(String, C)>,
    ctx: &mut ExecutionContext,
) -> (r: Result<Vec<CompensationRecord>, PipelineError>)
    ensures
        r matches Err(e) ==> !e.retryable && e.failed_step_id@ == Seq::<char>::empty() && e.error_kind
            == crate::pipe::dry_run::ErrorKind::ComposeFailed,
        r matches Ok(recs) ==> exists|cps: Seq<Checkpoint>| {
            let order = #[trigger] rollback_order(*dag, cps, compensators@, dag.steps@.len() as int);
            &&& cp_views(cps) == checkpoint_store.stored(dag.pipeline_id@)
            &&& recs@.len() == order.len()
            &&& forall|i: int| 0 <= i < order.len() ==> (#[trigger] recs@[i]).step_id == dag.steps@[order[i]].composed.step_id
                && compensation_done(*dag, cps, compensators@, order[i], recs@[i])
        },
{
    let checkpoints = match checkpoint_store.load_all(dag.pipeline_id.as_str()) {
        Ok(c) => c,
        Err(_) => {
            return Err(crate::pipe::dry_run::run_level_failure());
        },
    };
    let mut records: Vec<CompensationRecord> = Vec::new();
    proof {
        lemma_order_bounds(*dag, checkpoints@, compensators@, dag.steps@.len() as int);
    }
    let ghost full = rollback_order(*dag, checkpoints@, compensators@, dag.steps@.len() as int);
    let ghost mut done: Seq<int> = Seq::empty();
    let mut n: usize = dag.steps.len();
    while n > 0
        invariant
            n <= dag.steps@.len(),
            full == rollback_order(*dag, checkpoints@, compensators@, dag.steps@.len() as int),
            full == done + rollback_order(*dag, checkpoints@, compensators@, n as int),
            records_follow(*dag, checkpoints@, compensators@, done, records@),
        decreases n,
    {
        let i = n - 1;
        let step = &dag.steps[i];
        if let Some((k, c)) = plan_step(dag, &checkpoints, compensators, i) {
            let out = checkpoints[k].output_frames.as_slice();
            let result = compensators[c].1.compensate(&step.composed, out, ctx);
            let record = compensation_record(&step.composed.step_id, &result);
            proof {
                lemma_compensation_done(*dag, checkpoints@, compensators@, i as int, k as int, c as int, out, result, record);
                lemma_records_push(*dag, checkpoints@, compensators@, done, records@, i as int, record);
            }
            records.push(record);
            proof {
                assert(done.push(i as int) + rollback_order(*dag, checkpoints@, compensators@, i as int) =~= done
                    + rollback_order(*dag, checkpoints@, compensators@, n as int));
                done = done.push(i as int);
            }
        }
        n = i;
    }
    assert(done =~= full);
    Ok(records)
}

} // verus!
