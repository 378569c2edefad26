//! Running DAG pipelines: branch selection, joins, checkpoints, retries,
//! approvals and resumption.

use vstd::prelude::*;

use crate::json::{
    json_as_array, json_as_object, json_as_str, json_elements, json_entries, json_eq, json_equal, json_get, json_member,
    json_text_of, entry_views as json_entry_views,
};
use crate::keyed::KeyedMap;
use crate::pipe::executor::entries_match;
use crate::pipe::ast::{DagMergeStrategy, DagNodeKind, DagPipeline, DagStep};
use crate::pipe::approval_gate::{ApprovalGate, ApprovalRequestInput};
use crate::pipe::approval_gate::InMemoryApprovalGate;
use crate::pipe::checkpoint::{
    cp_view, cp_views, execute_step_with_retry, execute_step_with_retry_unchecked, save_checkpoint, try_ended, Backoff,
    checkpoint_of, Checkpoint, CheckpointError, CheckpointStore, CheckpointView, InMemoryCheckpointStore, RetryPolicy,
};
use crate::pipe::compensate::{rollback_dag, CompensatingExecutor};
use crate::pipe::run::{clone_audit, RunResult};
use crate::pipe::state_machine::PipelineState;
use crate::pipe::dry_run::{run_level_failure, ErrorKind, FrameEnvelope, PipelineError};
use crate::pipe::registry::CommandRegistry;
use crate::pipe::run::{
    clone_frames, execute_step, execute_step_core, expand_value, expanded, frames_typed, outcome_view, renumber, reseq,
    step_error, step_outcome, CommandExecutor, ExecutionContext, StepPolicy, StepState,
};
use crate::pipe::ast::ComposedStep;
use crate::pipe::registry::PipeCommandManifest;
use crate::pipe::state_machine::{apply_event, transition_defined, PipelineStateMachine, StateEvent};
use crate::policy::types::{ApprovalStatus, PolicyDecision};
use crate::text::{concat3, owned, str_eq};

verus! {

/// Some predecessor of the step is a branch that selected another target.
pub open spec fn skipped_by_branch(step: DagStep, branches: Map<Seq<char>, String>) -> bool {
    exists|i: int|
        0 <= i < step.predecessors@.len() && branches.contains_key((#[trigger] step.predecessors@[i])@)
            && branches[step.predecessors@[i]@]@ != step.composed.step_id@
}

/// Whether the step is skipped: some predecessor branch selected another target.
pub fn should_skip_step(step: &DagStep, branch_selections: &KeyedMap<String>) -> (r: bool)
    requires
        branch_selections.wf(),
    ensures
        r == skipped_by_branch(*step, branch_selections@),
{
    let mut i: usize = 0;
    while i < step.predecessors.len()
        invariant
            i <= step.predecessors@.len(),
            branch_selections.wf(),
            forall|j: int|
                0 <= j < i ==> !(branch_selections@.contains_key((#[trigger] step.predecessors@[j])@)
                    && branch_selections@[step.predecessors@[j]@]@ != step.composed.step_id@),
        decreases step.predecessors@.len() - i,
    {
        if let Some(selected) = branch_selections.get(step.predecessors[i].as_str()) {
            if !str_eq(selected.as_str(), step.composed.step_id.as_str()) {
                return true;
            }
        }
        i = i + 1;
    }
    false
}

/// The frames the initial input gives a step without real predecessors.
pub open spec fn initial_frames(step: DagStep, initial: FrameEnvelope) -> Seq<FrameEnvelope> {
    expanded(step.composed.step_id, step.composed.input_type, initial.payload)
}

/// The frames the initial input gives a step without real predecessors: one
/// per element of an array payload when the step takes many, else one.
pub fn expand_initial(step: &DagStep, initial: &FrameEnvelope) -> (r: Vec<FrameEnvelope>)
    ensures
        r@ == initial_frames(*step, *initial),
{
    expand_value(&step.composed.step_id, step.composed.input_type, &initial.payload)
}

// ---------------------------------------------------------------------------
// Joins
// ---------------------------------------------------------------------------

/// The frame lists of the ordered inputs.
pub open spec fn input_lists(inputs: Seq<(usize, Vec<FrameEnvelope>)>) -> Seq<Seq<FrameEnvelope>> {
    inputs.map_values(|p: (usize, Vec<FrameEnvelope>)| p.1@)
}

/// The longest list's length.
pub open spec fn max_len(ls: Seq<Seq<FrameEnvelope>>) -> nat
    decreases ls.len(),
{
    if ls.len() == 0 {
        0
    } else {
        let m = max_len(ls.drop_last());
        if ls.last().len() > m {
            ls.last().len()
        } else {
            m
        }
    }
}

/// Row `i` of the lists: the `i`-th frame of each list long enough, in order.
pub open spec fn row(ls: Seq<Seq<FrameEnvelope>>, i: int) -> Seq<FrameEnvelope> {
    ls.filter(|l: Seq<FrameEnvelope>| i < l.len()).map_values(|l: Seq<FrameEnvelope>| l[i])
}

/// The lists interleaved: row 0, then row 1, up to the longest list's end.
pub open spec fn interleaved(ls: Seq<Seq<FrameEnvelope>>) -> Seq<FrameEnvelope> {
    Seq::new(max_len(ls), |i: int| row(ls, i)).flatten()
}

/// The first non-empty list, if any.
pub open spec fn first_non_empty(ls: Seq<Seq<FrameEnvelope>>) -> Seq<FrameEnvelope>
    decreases ls.len(),
{
    if ls.len() == 0 {
        Seq::empty()
    } else if ls[0].len() > 0 {
        ls[0]
    } else {
        first_non_empty(ls.drop_first())
    }
}

/// What a join gives for its ordered inputs: concatenated, interleaved, or
/// the first non-empty one, renumbered from 0.
pub open spec fn merged(ls: Seq<Seq<FrameEnvelope>>, strategy: DagMergeStrategy) -> Seq<FrameEnvelope> {
    match strategy {
        DagMergeStrategy::Concat => reseq(ls.flatten()),
        DagMergeStrategy::Interleave => reseq(interleaved(ls)),
        DagMergeStrategy::FirstNonEmpty => reseq(first_non_empty(ls)),
    }
}

fn append_frames(out: &mut Vec<FrameEnvelope>, frames: &Vec<FrameEnvelope>)
    ensures
        final(out)@ == old(out)@ + frames@,
{
    let ghost start = out@;
    let mut i: usize = 0;
    while i < frames.len()
        invariant
            i <= frames@.len(),
            out@ == start + frames@.take(i as int),
        decreases frames@.len() - i,
    {
        out.push(frames[i].clone());
        assert(out@ =~= start + frames@.take(i + 1));
        i = i + 1;
    }
    assert(frames@.take(i as int) =~= frames@);
}

fn concat_lists(inputs: &Vec<(usize, Vec<FrameEnvelope>)>) -> (r: Vec<FrameEnvelope>)
    ensures
        r@ == input_lists(inputs@).flatten(),
{
    let mut out: Vec<FrameEnvelope> = Vec::new();
    let mut k: usize = 0;
    while k < inputs.len()
        invariant
            k <= inputs@.len(),
            out@ == input_lists(inputs@).take(k as int).flatten(),
        decreases inputs@.len() - k,
    {
        proof {
            let ls = input_lists(inputs@);
            assert(ls.take(k + 1) =~= ls.take(k as int).push(inputs@[k as int].1@));
            ls.take(k as int).lemma_flatten_push(inputs@[k as int].1@);
        }
        append_frames(&mut out, &inputs[k].1);
        k = k + 1;
    }
    assert(input_lists(inputs@).take(k as int) =~= input_lists(inputs@));
    out
}

fn longest(inputs: &Vec<(usize, Vec<FrameEnvelope>)>) -> (r: usize)
    ensures
        r == max_len(input_lists(inputs@)),
{
    let mut m: usize = 0;
    let mut k: usize = 0;
    while k < inputs.len()
        invariant
            k <= inputs@.len(),
            m == max_len(input_lists(inputs@).take(k as int)),
        decreases inputs@.len() - k,
    {
        assert(input_lists(inputs@).take(k + 1).drop_last() =~= input_lists(inputs@).take(k as int));
        if inputs[k].1.len() > m {
            m = inputs[k].1.len();
        }
        k = k + 1;
    }
    assert(input_lists(inputs@).take(k as int) =~= input_lists(inputs@));
    m
}

proof fn lemma_row_step(ls: Seq<Seq<FrameEnvelope>>, k: int, i: int)
    requires
        0 <= k < ls.len(),
    ensures
        row(ls.take(k + 1), i) == if i < ls[k].len() {
            row(ls.take(k), i).push(ls[k][i])
        } else {
            row(ls.take(k), i)
        },
{
    let p = |l: Seq<FrameEnvelope>| i < l.len();
    assert(ls.take(k + 1) =~= ls.take(k).push(ls[k]));
    ls.take(k).lemma_filter_push(ls[k], p);
    if i < ls[k].len() {
        assert(ls.take(k).filter(p).push(ls[k]).map_values(|l: Seq<FrameEnvelope>| l[i]) =~= ls.take(k).filter(p).map_values(
            |l: Seq<FrameEnvelope>| l[i],
        ).push(ls[k][i]));
    }
}

fn interleave_lists(inputs: &Vec<(usize, Vec<FrameEnvelope>)>) -> (r: Vec<FrameEnvelope>)
    ensures
        r@ == interleaved(input_lists(inputs@)),
{
    let ghost ls = input_lists(inputs@);
    let max = longest(inputs);
    let ghost rows = Seq::new(max as nat, |i: int| row(ls, i));
    let mut out: Vec<FrameEnvelope> = Vec::new();
    let mut i: usize = 0;
    while i < max
        invariant
            i <= max,
            ls == input_lists(inputs@),
            rows == Seq::new(max as nat, |i: int| row(ls, i)),
            out@ == rows.take(i as int).flatten(),
        decreases max - i,
    {
        let ghost before = out@;
        let mut k: usize = 0;
        while k < inputs.len()
            invariant
                k <= inputs@.len(),
                i < max,
                ls == input_lists(inputs@),
                out@ == before + row(ls.take(k as int), i as int),
            decreases inputs@.len() - k,
        {
            proof {
                lemma_row_step(ls, k as int, i as int);
            }
            if i < inputs[k].1.len() {
                out.push(inputs[k].1[i].clone());
            }
            k = k + 1;
        }
        proof {
            assert(ls.take(k as int) =~= ls);
            assert(rows.take(i + 1) =~= rows.take(i as int).push(rows[i as int]));
            rows.take(i as int).lemma_flatten_push(rows[i as int]);
        }
        i = i + 1;
    }
    assert(rows.take(i as int) =~= rows);
    out
}

/// Merges a join's ordered inputs by its strategy.
pub fn merge_inputs(inputs: Vec<(usize, Vec<FrameEnvelope>)>, strategy: DagMergeStrategy) -> (r: Vec<FrameEnvelope>)
    ensures
        r@ == merged(input_lists(inputs@), strategy),
{
    match strategy {
        DagMergeStrategy::Concat => {
            let mut out = concat_lists(&inputs);
            renumber(&mut out);
            out
        },
        DagMergeStrategy::Interleave => {
            let mut out = interleave_lists(&inputs);
            renumber(&mut out);
            out
        },
        DagMergeStrategy::FirstNonEmpty => {
            let ghost ls = input_lists(inputs@);
            assert(ls.skip(0) =~= ls);
            let mut k: usize = 0;
            while k < inputs.len()
                invariant
                    k <= inputs@.len(),
                    strategy == DagMergeStrategy::FirstNonEmpty,
                    ls == input_lists(inputs@),
                    first_non_empty(ls) == first_non_empty(ls.skip(k as int)),
                decreases inputs@.len() - k,
            {
                assert(ls.skip(k as int).drop_first() =~= ls.skip(k + 1));
                assert(ls.skip(k as int)[0] == inputs@[k as int].1@);
                if inputs[k].1.len() > 0 {
                    let mut out = clone_frames(&inputs[k].1);
                    assert(ls.skip(k as int).len() > 0);
                    assert(first_non_empty(ls.skip(k as int)) == inputs@[k as int].1@);
                    renumber(&mut out);
                    return out;
                }
                k = k + 1;
            }
            assert(ls.skip(k as int).len() == 0);
            Vec::new()
        },
    }
}

// ---------------------------------------------------------------------------
// A step's input
// ---------------------------------------------------------------------------

/// An ordered input with its frames as a sequence.
pub open spec fn entry_view(p: (usize, Vec<FrameEnvelope>)) -> (usize, Seq<FrameEnvelope>) {
    (p.0, p.1@)
}

/// The ordered inputs with their frames as sequences.
pub open spec fn entry_views(s: Seq<(usize, Vec<FrameEnvelope>)>) -> Seq<(usize, Seq<FrameEnvelope>)> {
    s.map_values(|p: (usize, Vec<FrameEnvelope>)| entry_view(p))
}

/// The first place in `t` whose order is greater than `key`.
pub open spec fn first_greater(t: Seq<(usize, Seq<FrameEnvelope>)>, key: usize) -> int {
    if exists|k: int| 0 <= k < t.len() && (#[trigger] t[k]).0 > key {
        choose|k: int| 0 <= k < t.len() && (#[trigger] t[k]).0 > key && forall|j: int| 0 <= j < k ==> (#[trigger] t[j]).0 <= key
    } else {
        t.len() as int
    }
}

/// The inputs sorted by order, inputs of equal order keeping their relative
/// order: each input in turn goes before the first one of greater order.
pub open spec fn sort_by_order(s: Seq<(usize, Seq<FrameEnvelope>)>) -> Seq<(usize, Seq<FrameEnvelope>)>
    decreases s.len(),
{
    if s.len() == 0 {
        s
    } else {
        let t = sort_by_order(s.drop_last());
        t.insert(first_greater(t, s.last().0), s.last())
    }
}

fn place_of(t: &Vec<(usize, Vec<FrameEnvelope>)>, key: usize) -> (r: usize)
    ensures
        r == first_greater(entry_views(t@), key),
        r <= t@.len(),
{
    let ghost tv = entry_views(t@);
    let mut k: usize = 0;
    while k < t.len()
        invariant
            k <= t@.len(),
            tv == entry_views(t@),
            forall|j: int| 0 <= j < k ==> (#[trigger] tv[j]).0 <= key,
        decreases t@.len() - k,
    {
        if t[k].0 > key {
            assert(tv[k as int].0 > key);
            return k;
        }
        k = k + 1;
    }
    assert(!exists|j: int| 0 <= j < tv.len() && (#[trigger] tv[j]).0 > key);
    k
}

/// Placing the next input where `sort_by_order` puts it sorts one more input.
proof fn lemma_sort_next(all: Seq<(usize, Seq<FrameEnvelope>)>, i: int)
    requires
        0 <= i < all.len(),
    ensures
        sort_by_order(all.take(i + 1)) == sort_by_order(all.take(i)).insert(
            first_greater(sort_by_order(all.take(i)), all[i].0),
            all[i],
        ),
{
    assert(all.take(i + 1).drop_last() =~= all.take(i));
    assert(all.take(i + 1).last() == all[i]);
}

/// The views of a vector after an insertion.
proof fn lemma_views_insert(v: Seq<(usize, Vec<FrameEnvelope>)>, pos: int, e: (usize, Vec<FrameEnvelope>))
    requires
        0 <= pos <= v.len(),
    ensures
        entry_views(v.insert(pos, e)) == entry_views(v).insert(pos, entry_view(e)),
{
    assert(entry_views(v.insert(pos, e)) =~= entry_views(v).insert(pos, entry_view(e)));
}

/// Sorts the inputs by order, stably.
#[verifier::spinoff_prover]
pub fn sort_inputs(inputs: Vec<(usize, Vec<FrameEnvelope>)>) -> (r: Vec<(usize, Vec<FrameEnvelope>)>)
    ensures
        entry_views(r@) == sort_by_order(entry_views(inputs@)),
{
    let mut sorted: Vec<(usize, Vec<FrameEnvelope>)> = Vec::new();
    let mut rest = inputs;
    let ghost all = entry_views(rest@);
    let mut i: usize = 0;
    let n = rest.len();
    while i < n
        invariant
            i <= n,
            n == all.len(),
            entry_views(rest@) == all,
            entry_views(sorted@) == sort_by_order(all.take(i as int)),
        decreases n - i,
    {
        let key = rest[i].0;
        let frames = clone_frames(&rest[i].1);
        let pos = place_of(&sorted, key);
        let ghost before = sorted@;
        proof {
            lemma_sort_next(all, i as int);
            lemma_views_insert(before, pos as int, (key, frames));
            assert(entry_view((key, frames)) == all[i as int]);
        }
        sorted.insert(pos, (key, frames));
        i = i + 1;
    }
    assert(all.take(i as int) =~= all);
    sorted
}

/// A predecessor's input was cut off by its branch selecting another target.
pub open spec fn deselected(step: DagStep, branches: Map<Seq<char>, String>, pred: Seq<char>) -> bool {
    branches.contains_key(pred) && branches[pred]@ != step.composed.step_id@
}

/// The inputs the first `n` predecessors give a step, in their order: each
/// not cut off by a branch gives its topological position (0 when unknown)
/// and its output, or the initial frame when it has none.
pub open spec fn pred_entries(
    step: DagStep,
    outputs: Map<Seq<char>, Vec<FrameEnvelope>>,
    branches: Map<Seq<char>, String>,
    initial: FrameEnvelope,
    topo: Map<Seq<char>, usize>,
    n: int,
) -> Seq<(usize, Seq<FrameEnvelope>)>
    decreases n,
{
    if n <= 0 {
        Seq::empty()
    } else {
        let prev = pred_entries(step, outputs, branches, initial, topo, n - 1);
        let p = step.predecessors@[n - 1]@;
        if deselected(step, branches, p) {
            prev
        } else {
            prev.push(
                (
                    if topo.contains_key(p) { topo[p] } else { 0 },
                    if outputs.contains_key(p) { outputs[p]@ } else { seq![initial] },
                ),
            )
        }
    }
}

/// Some predecessor not cut off by a branch has an output.
pub open spec fn has_real_pred(step: DagStep, outputs: Map<Seq<char>, Vec<FrameEnvelope>>, branches: Map<Seq<char>, String>) -> bool {
    exists|i: int|
        0 <= i < step.predecessors@.len() && !deselected(step, branches, (#[trigger] step.predecessors@[i])@)
            && outputs.contains_key(step.predecessors@[i]@)
}

/// The input of a DAG step: without a predecessor that has an output, the
/// initial input; otherwise its inputs sorted by topological position, merged
/// by a join's strategy or else concatenated.
pub open spec fn dag_input(
    step: DagStep,
    outputs: Map<Seq<char>, Vec<FrameEnvelope>>,
    branches: Map<Seq<char>, String>,
    initial: FrameEnvelope,
    topo: Map<Seq<char>, usize>,
) -> Seq<FrameEnvelope> {
    let es = pred_entries(step, outputs, branches, initial, topo, step.predecessors@.len() as int);
    if es.len() == 0 || !has_real_pred(step, outputs, branches) {
        initial_frames(step, initial)
    } else {
        let ls = sort_by_order(es).map_values(|e: (usize, Seq<FrameEnvelope>)| e.1);
        match step.kind {
            DagNodeKind::Join { strategy } => merged(ls, strategy),
            _ => if ls.len() == 1 {
                ls[0]
            } else {
                ls.flatten()
            },
        }
    }
}

/// The input of a DAG step (see `dag_input`).
pub fn resolve_dag_input(
    step: &DagStep,
    step_outputs: &KeyedMap<Vec<FrameEnvelope>>,
    branch_selections: &KeyedMap<String>,
    initial: &FrameEnvelope,
    topo_order: &KeyedMap<usize>,
) -> (r: Vec<FrameEnvelope>)
    requires
        step_outputs.wf(),
        branch_selections.wf(),
        topo_order.wf(),
    ensures
        r@ == dag_input(*step, step_outputs@, branch_selections@, *initial, topo_order@),
{
    let ghost outs = step_outputs@;
    let ghost brs = branch_selections@;
    let ghost topo = topo_order@;
    let mut inputs: Vec<(usize, Vec<FrameEnvelope>)> = Vec::new();
    let mut has_real = false;
    let mut i: usize = 0;
    while i < step.predecessors.len()
        invariant
            i <= step.predecessors@.len(),
            step_outputs.wf(),
            branch_selections.wf(),
            topo_order.wf(),
            outs == step_outputs@,
            brs == branch_selections@,
            topo == topo_order@,
            entry_views(inputs@) == pred_entries(*step, outs, brs, *initial, topo, i as int),
            has_real == exists|j: int|
                0 <= j < i && !deselected(*step, brs, (#[trigger] step.predecessors@[j])@) && outs.contains_key(
                    step.predecessors@[j]@,
                ),
        decreases step.predecessors@.len() - i,
    {
        let pred = step.predecessors[i].as_str();
        let mut cut = false;
        if let Some(selected) = branch_selections.get(pred) {
            if !str_eq(selected.as_str(), step.composed.step_id.as_str()) {
                cut = true;
            }
        }
        assert(cut == deselected(*step, brs, step.predecessors@[i as int]@));
        if !cut {
            let frames = match step_outputs.get(pred) {
                Some(f) => {
                    has_real = true;
                    clone_frames(f)
                },
                None => {
                    let mut v: Vec<FrameEnvelope> = Vec::new();
                    v.push(initial.clone());
                    assert(v@ =~= seq![*initial]);
                    v
                },
            };
            let order = match topo_order.get(pred) {
                Some(o) => *o,
                None => 0,
            };
            let ghost before = entry_views(inputs@);
            inputs.push((order, frames));
            assert(entry_views(inputs@) =~= before.push((order, frames@)));
        }
        assert(pred_entries(*step, outs, brs, *initial, topo, i + 1) == if deselected(*step, brs, step.predecessors@[i as int]@) {
            pred_entries(*step, outs, brs, *initial, topo, i as int)
        } else {
            pred_entries(*step, outs, brs, *initial, topo, i as int).push((
                if topo.contains_key(step.predecessors@[i as int]@) { topo[step.predecessors@[i as int]@] } else { 0 },
                if outs.contains_key(step.predecessors@[i as int]@) { outs[step.predecessors@[i as int]@]@ } else { seq![*initial] },
            ))
        });
        i = i + 1;
    }
    if inputs.len() == 0 || !has_real {
        return expand_initial(step, initial);
    }
    let sorted = sort_inputs(inputs);
    let ghost ls = sort_by_order(entry_views(inputs@)).map_values(|e: (usize, Seq<FrameEnvelope>)| e.1);
    assert(input_lists(sorted@) =~= ls);
    match step.kind {
        DagNodeKind::Join { strategy } => merge_inputs(sorted, strategy),
        _ => {
            if sorted.len() == 1 {
                clone_frames(&sorted[0].1)
            } else {
                concat_lists(&sorted)
            }
        },
    }
}

// ---------------------------------------------------------------------------
// Branches
// ---------------------------------------------------------------------------

/// The text of a member of an object value, if it is a string.
pub open spec fn text_member(v: serde_json::Value, key: Seq<char>) -> Option<Seq<char>> {
    match json_member(v, key) {
        Some(x) => json_text_of(x),
        None => None,
    }
}

/// A branch entry with a target whose name is the route.
pub open spec fn route_hit(b: serde_json::Value, route: Seq<char>) -> bool {
    text_member(b, "target"@) is Some && text_member(b, "name"@) == Some(route)
}

/// Both values are objects and the payload holds each member of the predicate.
pub open spec fn object_members_match(payload: serde_json::Value, pred: serde_json::Value) -> bool {
    json_entries(payload) is Some && match json_entries(pred) {
        Some(es) => entries_match(payload, es),
        None => false,
    }
}

/// A branch entry with a target whose predicate the payload meets: equal to
/// it, or, both being objects, holding each of its members.
pub open spec fn predicate_hit(b: serde_json::Value, payload: serde_json::Value) -> bool {
    text_member(b, "target"@) is Some && match json_member(b, "predicate"@) {
        Some(p) => json_equal(payload, p) || object_members_match(payload, p),
        None => false,
    }
}

/// The first entry that `hit` picks.
pub open spec fn first_hit(arr: Seq<serde_json::Value>, hit: spec_fn(serde_json::Value) -> bool) -> Option<int> {
    if exists|k: int| 0 <= k < arr.len() && hit(#[trigger] arr[k]) {
        Some(choose|k: int| 0 <= k < arr.len() && hit(#[trigger] arr[k]) && forall|j: int| 0 <= j < k ==> !hit(#[trigger] arr[j]))
    } else {
        None
    }
}

/// The route argument of a branch step, if it is a string.
pub open spec fn route_of(step: DagStep) -> Option<Seq<char>> {
    text_member(step.composed.args, "route"@)
}

/// The target a branch step selects: the first entry of its `branches`
/// array named by its `route`, else the first whose predicate the first
/// input frame meets, else the first entry; none without a `branches` array.
pub open spec fn branch_target(step: DagStep, frames: Seq<FrameEnvelope>) -> Option<Seq<char>> {
    match json_member(step.composed.args, "branches"@) {
        None => None,
        Some(b) => match json_elements(b) {
            None => None,
            Some(arr) => if route_of(step) is Some && first_hit(arr, |x: serde_json::Value| route_hit(x, route_of(step)->0)) is Some {
                text_member(arr[first_hit(arr, |x: serde_json::Value| route_hit(x, route_of(step)->0))->0], "target"@)
            } else if frames.len() > 0 && first_hit(arr, |x: serde_json::Value| predicate_hit(x, frames[0].payload)) is Some {
                text_member(arr[first_hit(arr, |x: serde_json::Value| predicate_hit(x, frames[0].payload))->0], "target"@)
            } else if arr.len() > 0 {
                text_member(arr[0], "target"@)
            } else {
                None
            },
        },
    }
}

fn text_member_exec(v: &serde_json::Value, key: &str) -> (r: Option<String>)
    ensures
        r is None <==> text_member(*v, key@) is None,
        r matches Some(t) ==> text_member(*v, key@) == Some(t@),
{
    match json_get(v, key) {
        Some(x) => json_as_str(&x),
        None => None,
    }
}

fn members_match(payload: &serde_json::Value, pred: &serde_json::Value) -> (r: bool)
    ensures
        r == object_members_match(*payload, *pred),
{
    if json_as_object(payload).is_none() {
        return false;
    }
    match json_as_object(pred) {
        None => false,
        Some(es) => {
            let ghost ev = json_entry_views(es@);
            let mut i: usize = 0;
            while i < es.len()
                invariant
                    i <= es@.len(),
                    ev == json_entry_views(es@),
                    json_entries(*payload) is Some,
                    json_entries(*pred) == Some(ev),
                    forall|j: int| 0 <= j < i ==> (json_member(*payload, (#[trigger] ev[j]).0) matches Some(w) && json_equal(w, ev[j].1)),
                decreases es@.len() - i,
            {
                assert(ev[i as int] == (es@[i as int].0@, es@[i as int].1));
                match json_get(payload, es[i].0.as_str()) {
                    Some(w) => {
                        if !json_eq(&w, &es[i].1) {
                            return false;
                        }
                    },
                    None => {
                        return false;
                    },
                }
                i = i + 1;
            }
            true
        },
    }
}

fn is_predicate_hit(b: &serde_json::Value, payload: &serde_json::Value) -> (r: bool)
    ensures
        r == predicate_hit(*b, *payload),
{
    if text_member_exec(b, "target").is_none() {
        return false;
    }
    match json_get(b, "predicate") {
        None => false,
        Some(p) => json_eq(payload, &p) || members_match(payload, &p),
    }
}

/// The target a branch step selects (see `branch_target`).
pub fn evaluate_branch(step: &DagStep, input_frames: &Vec<FrameEnvelope>) -> (r: Option<String>)
    ensures
        r is None <==> branch_target(*step, input_frames@) is None,
        r matches Some(t) ==> branch_target(*step, input_frames@) == Some(t@),
{
    let branches = match json_get(&step.composed.args, "branches") {
        Some(b) => b,
        None => {
            return None;
        },
    };
    let arr = match json_as_array(&branches) {
        Some(a) => a,
        None => {
            return None;
        },
    };
    let route = text_member_exec(&step.composed.args, "route");
    if let Some(route) = &route {
        let ghost rh = |x: serde_json::Value| route_hit(x, route@);
        let mut k: usize = 0;
        while k < arr.len()
            invariant
                k <= arr@.len(),
                json_member(step.composed.args, "branches"@) == Some(branches),
                json_elements(branches) == Some(arr@),
                route_of(*step) == Some(route@),
                rh == (|x: serde_json::Value| route_hit(x, route@)),
                forall|j: int| 0 <= j < k ==> !rh(#[trigger] arr@[j]),
            decreases arr@.len() - k,
        {
            let target = text_member_exec(&arr[k], "target");
            let name = text_member_exec(&arr[k], "name");
            if let Some(t) = target {
                if let Some(n) = name {
                    if str_eq(n.as_str(), route.as_str()) {
                        assert(rh(arr@[k as int]));
                        assert(first_hit(arr@, rh) == Some(k as int));
                        return Some(t);
                    }
                }
            }
            assert(!rh(arr@[k as int]));
            k = k + 1;
        }
        assert(first_hit(arr@, rh) is None);
    }
    let ghost route_missed = route_of(*step) is None || first_hit(arr@, |x: serde_json::Value| route_hit(x, route_of(*step)->0)) is None;
    assert(route_missed);
    if input_frames.len() > 0 {
        let ghost ph = |x: serde_json::Value| predicate_hit(x, input_frames@[0].payload);
        let mut k: usize = 0;
        while k < arr.len()
            invariant
                k <= arr@.len(),
                json_member(step.composed.args, "branches"@) == Some(branches),
                json_elements(branches) == Some(arr@),
                route_missed,
                route_missed == (route_of(*step) is None || first_hit(arr@, |x: serde_json::Value| route_hit(x, route_of(*step)->0)) is None),
                input_frames@.len() > 0,
                ph == (|x: serde_json::Value| predicate_hit(x, input_frames@[0].payload)),
                forall|j: int| 0 <= j < k ==> !ph(#[trigger] arr@[j]),
            decreases arr@.len() - k,
        {
            if is_predicate_hit(&arr[k], &input_frames[0].payload) {
                assert(ph(arr@[k as int]));
                assert(first_hit(arr@, ph) == Some(k as int));
                return text_member_exec(&arr[k], "target");
            }
            k = k + 1;
        }
        assert(first_hit(arr@, ph) is None);
    }
    if arr.len() > 0 {
        text_member_exec(&arr[0], "target")
    } else {
        None
    }
}

// ---------------------------------------------------------------------------
// Running the DAG
// ---------------------------------------------------------------------------

/// A failure of the run as a whole, tied to no step.
pub open spec fn is_run_level(e: PipelineError) -> bool {
    &&& !e.retryable
    &&& e.failed_step_id@ == Seq::<char>::empty()
    &&& e.error_kind == ErrorKind::ComposeFailed
}

/// Applies a lifecycle event; a refused one leaves the machine as it was and
/// fails the run as a whole.
fn transition_or_fail(sm: &mut PipelineStateMachine, event: StateEvent) -> (r: Result<(), PipelineError>)
    ensures
        r is Ok <==> transition_defined(old(sm).state, event),
        r is Ok ==> *final(sm) == apply_event(*old(sm), event),
        r matches Err(e) ==> is_run_level(e) && *final(sm) == *old(sm),
{
    match sm.transition(event) {
        Ok(()) => Ok(()),
        Err(_) => Err(run_level_failure()),
    }
}

fn step_failed(step: &DagStep, kind: ErrorKind) -> (r: PipelineError)
    ensures
        !r.retryable,
        r.failed_step_id == step.composed.step_id,
        r.error_kind == kind,
{
    PipelineError { retryable: false, failed_step_id: step.composed.step_id.clone(), error_kind: kind }
}

/// An allowed step run: tried up to the retry policy's count, or once.
pub open spec fn allowed_run<E>(
    step: ComposedStep,
    input: Seq<FrameEnvelope>,
    ms: Seq<PipeCommandManifest>,
    es: Seq<(String, E)>,
    retry_policy: Option<RetryPolicy>,
    old_ctx: ExecutionContext,
    new_ctx: ExecutionContext,
    r: Result<Seq<FrameEnvelope>, PipelineError>,
) -> bool {
    match retry_policy {
        Some(rp) => exists|k: int, from: ExecutionContext|
            #[trigger] try_ended(step, input, ms, es, k, rp.max_attempts as int, from, new_ctx, r),
        None => step_outcome(step, input, ms, es, PolicyDecision::Allow, old_ctx, new_ctx, r),
    }
}

/// A step run under the policy's decision `d`, with retries when a retry
/// policy is given (as `execute_step` and `execute_step_with_retry`).
pub open spec fn policy_run<E>(
    step: ComposedStep,
    input: Seq<FrameEnvelope>,
    ms: Seq<PipeCommandManifest>,
    es: Seq<(String, E)>,
    retry_policy: Option<RetryPolicy>,
    d: PolicyDecision,
    old_ctx: ExecutionContext,
    new_ctx: ExecutionContext,
    r: Result<Seq<FrameEnvelope>, PipelineError>,
) -> bool {
    match retry_policy {
        Some(rp) => match d {
            PolicyDecision::Deny => r == Err::<Seq<FrameEnvelope>, PipelineError>(step_error(step, false, ErrorKind::SideEffectBlocked))
                && new_ctx == old_ctx,
            PolicyDecision::RequireApproval => r == Err::<Seq<FrameEnvelope>, PipelineError>(step_error(step, true, ErrorKind::ApprovalRequired))
                && new_ctx == old_ctx,
            PolicyDecision::Allow => allowed_run(step, input, ms, es, retry_policy, old_ctx, new_ctx, r),
        },
        None => step_outcome(step, input, ms, es, d, old_ctx, new_ctx, r),
    }
}

/// What a command step ends with, the policy having decided `d`. When
/// approvals are not asked for, it runs under that decision. When they are:
/// a denial blocks it; an allowed step runs; a step that needs approval has
/// one requested and waited for, and then a failed request or wait, or a
/// refused lifecycle event, fails the run as a whole, an approval denied or
/// not given in time fails it as needing approval, and an approval granted
/// lets it run as allowed.
pub open spec fn command_step_done<E>(
    step: ComposedStep,
    input: Seq<FrameEnvelope>,
    ms: Seq<PipeCommandManifest>,
    es: Seq<(String, E)>,
    retry_policy: Option<RetryPolicy>,
    d: PolicyDecision,
    gated: bool,
    old_ctx: ExecutionContext,
    new_ctx: ExecutionContext,
    r: Result<Seq<FrameEnvelope>, PipelineError>,
) -> bool {
    if !gated {
        policy_run(step, input, ms, es, retry_policy, d, old_ctx, new_ctx, r)
    } else {
        match d {
            PolicyDecision::Deny => r == Err::<Seq<FrameEnvelope>, PipelineError>(step_error(step, false, ErrorKind::SideEffectBlocked))
                && new_ctx == old_ctx,
            PolicyDecision::Allow => allowed_run(step, input, ms, es, retry_policy, old_ctx, new_ctx, r),
            PolicyDecision::RequireApproval => {
                ||| (r matches Err(e) && is_run_level(e) && new_ctx == old_ctx)
                ||| (r == Err::<Seq<FrameEnvelope>, PipelineError>(step_error(step, false, ErrorKind::ApprovalRequired)) && new_ctx == old_ctx)
                ||| allowed_run(step, input, ms, es, retry_policy, old_ctx, new_ctx, r)
            },
        }
    }
}

/// Runs a command step: under an approval gate, asks the policy first, so a
/// denial blocks it and a required approval is requested and waited for;
/// then the step runs, with retries when a retry policy is given. The
/// lifecycle is told of approvals when it is tracked.
#[allow(clippy::too_many_arguments)]
fn run_command_step<E: CommandExecutor, P: StepPolicy, G: ApprovalGate, B: Backoff>(
    step: &DagStep,
    input_frames: Vec<FrameEnvelope>,
    registry: &CommandRegistry,
    executors: &Vec<(String, E)>,
    policy: &P,
    ctx: &mut ExecutionContext,
    retry_policy: Option<RetryPolicy>,
    backoff: &mut B,
    gate: &mut G,
    gated: bool,
    sm: &mut PipelineStateMachine,
    track: bool,
) -> (r: Result<Vec<FrameEnvelope>, PipelineError>)
    requires
        gated ==> old(gate).ready(),
        retry_policy matches Some(rp) ==> rp.max_attempts >= 1,
    ensures
        gated ==> final(gate).ready(),
        !gated ==> *final(gate) == *old(gate),
        !track ==> *final(sm) == *old(sm),
        old(sm).state != PipelineState::Completed ==> final(sm).state != PipelineState::Completed,
        command_step_done(step.composed, input_frames@, registry.manifests(), executors@, retry_policy, policy.decision(step.composed, *old(ctx)), gated, *old(ctx), *final(ctx), outcome_view(r)),
        r matches Ok(fs) ==> frames_typed(fs@, step.composed.output_type.0),
{
    if gated {
        match policy.check(&step.composed, ctx) {
            PolicyDecision::Deny => {
                return Err(step_failed(step, ErrorKind::SideEffectBlocked));
            },
            PolicyDecision::RequireApproval => {
                let reason = concat3("step ", step.composed.step_id.as_str(), " requires approval");
                let request = ApprovalRequestInput {
                    pipeline_id: ctx.pipeline_id.clone(),
                    step_id: step.composed.step_id.clone(),
                    actor_id: ctx.actor_id.clone(),
                    workspace_id: ctx.workspace_id.clone(),
                    operation: step.composed.command_id.clone(),
                    reason,
                };
                let approval_id = match gate.request_approval(request) {
                    Ok(id) => id,
                    Err(_) => {
                        return Err(run_level_failure());
                    },
                };
                if track {
                    transition_or_fail(sm, StateEvent::ApprovalRequested { approval_id: approval_id.clone() })?;
                }
                let status = match gate.wait_for_approval(approval_id.as_str(), 30000) {
                    Ok(s) => s,
                    Err(_) => {
                        return Err(run_level_failure());
                    },
                };
                match status {
                    ApprovalStatus::Approved => {
                        if track {
                            transition_or_fail(sm, StateEvent::ApprovalGranted)?;
                        }
                        return match retry_policy {
                            Some(rp) => execute_step_with_retry_unchecked(&step.composed, input_frames, registry, executors, ctx, &rp, backoff),
                            None => execute_step_core(&step.composed, input_frames, registry, executors, ctx, PolicyDecision::Allow),
                        };
                    },
                    ApprovalStatus::Denied => {
                        if track {
                            transition_or_fail(sm, StateEvent::ApprovalDenied)?;
                        }
                        return Err(step_failed(step, ErrorKind::ApprovalRequired));
                    },
                    ApprovalStatus::Pending => {
                        if track {
                            transition_or_fail(sm, StateEvent::ApprovalTimeout)?;
                        }
                        return Err(step_failed(step, ErrorKind::ApprovalRequired));
                    },
                }
            },
            PolicyDecision::Allow => {},
        }
    }
    match retry_policy {
        Some(rp) => execute_step_with_retry(&step.composed, input_frames, registry, executors, policy, ctx, &rp, backoff),
        None => execute_step(&step.composed, input_frames, registry, executors, policy, ctx),
    }
}

/// Keys recorded before stay as they were.
pub open spec fn keeps_recorded<V>(before: Map<Seq<char>, V>, after: Map<Seq<char>, V>, recorded: Map<Seq<char>, StepState>) -> bool {
    forall|id: Seq<char>| #[trigger] recorded.contains_key(id) && before.contains_key(id) ==> after.contains_key(id) && after[id] == before[id]
}

/// A step newly skipped has an empty output.
pub open spec fn skips_empty(
    states: Map<Seq<char>, StepState>,
    outputs: Map<Seq<char>, Vec<FrameEnvelope>>,
    recorded: Map<Seq<char>, StepState>,
) -> bool {
    forall|id: Seq<char>|
        #[trigger] states.contains_key(id) && !recorded.contains_key(id) && states[id] == StepState::Skipped ==> outputs.contains_key(id)
            && outputs[id]@.len() == 0
}

/// A state recorded anew is `Completed` or `Skipped`.
pub open spec fn new_states_settled(states: Map<Seq<char>, StepState>, recorded: Map<Seq<char>, StepState>) -> bool {
    forall|id: Seq<char>|
        #[trigger] states.contains_key(id) && !recorded.contains_key(id) ==> states[id] == StepState::Completed
            || states[id] == StepState::Skipped
}

/// Step ids are distinct, and no step names itself or a later step as a
/// predecessor.
pub open spec fn well_ordered(steps: Seq<DagStep>) -> bool {
    &&& forall|i: int, j: int|
        0 <= i < j < steps.len() ==> (#[trigger] steps[i]).composed.step_id@ != (#[trigger] steps[j]).composed.step_id@
    &&& forall|i: int, j: int, k: int|
        0 <= i <= j < steps.len() && 0 <= k < steps[i].predecessors@.len() ==> (#[trigger] steps[i].predecessors@[k])@
            != (#[trigger] steps[j]).composed.step_id@
}

/// The position of each step id in the order.
pub open spec fn step_positions(steps: Seq<DagStep>) -> Map<Seq<char>, usize>
    decreases steps.len(),
{
    if steps.len() == 0 {
        Map::empty()
    } else {
        step_positions(steps.drop_last()).insert(steps.last().composed.step_id@, (steps.len() - 1) as usize)
    }
}

/// The run's initial frame: number 0 of step `input`, of the DAG's input type.
pub open spec fn run_start(init: FrameEnvelope, dag: DagPipeline, payload: serde_json::Value) -> bool {
    &&& init.seq == 0
    &&& init.step_id@ == "input"@
    &&& init.frame_type == dag.input_type.0
    &&& init.payload == payload
}

/// Two maps agree at every key but `k`.
pub open spec fn same_except<V>(m1: Map<Seq<char>, V>, m2: Map<Seq<char>, V>, k: Seq<char>) -> bool {
    forall|p: Seq<char>|
        p != k ==> (#[trigger] m1.contains_key(p) == m2.contains_key(p)) && (m1.contains_key(p) ==> m1[p] == m2[p])
}

/// Two run states agree on what the step's predecessors gave and selected.
pub open spec fn preds_agree(
    step: DagStep,
    o1: Map<Seq<char>, Vec<FrameEnvelope>>,
    b1: Map<Seq<char>, String>,
    o2: Map<Seq<char>, Vec<FrameEnvelope>>,
    b2: Map<Seq<char>, String>,
) -> bool {
    forall|k: int|
        0 <= k < step.predecessors@.len() ==> {
            let p = (#[trigger] step.predecessors@[k])@;
            &&& o1.contains_key(p) == o2.contains_key(p)
            &&& o1.contains_key(p) ==> o1[p] == o2[p]
            &&& b1.contains_key(p) == b2.contains_key(p)
            &&& b1.contains_key(p) ==> b1[p] == b2[p]
        }
}

proof fn lemma_pred_entries_agree(
    step: DagStep,
    o1: Map<Seq<char>, Vec<FrameEnvelope>>,
    b1: Map<Seq<char>, String>,
    o2: Map<Seq<char>, Vec<FrameEnvelope>>,
    b2: Map<Seq<char>, String>,
    init: FrameEnvelope,
    topo: Map<Seq<char>, usize>,
    n: int,
)
    requires
        preds_agree(step, o1, b1, o2, b2),
        n <= step.predecessors@.len(),
    ensures
        pred_entries(step, o1, b1, init, topo, n) == pred_entries(step, o2, b2, init, topo, n),
    decreases n,
{
    if n > 0 {
        lemma_pred_entries_agree(step, o1, b1, o2, b2, init, topo, n - 1);
        let p = step.predecessors@[n - 1]@;
        assert(o1.contains_key(p) == o2.contains_key(p));
    }
}

/// What a step reads of the run state is what its predecessors gave and
/// selected.
proof fn lemma_reads_preds(
    step: DagStep,
    o1: Map<Seq<char>, Vec<FrameEnvelope>>,
    b1: Map<Seq<char>, String>,
    o2: Map<Seq<char>, Vec<FrameEnvelope>>,
    b2: Map<Seq<char>, String>,
    init: FrameEnvelope,
    topo: Map<Seq<char>, usize>,
)
    requires
        preds_agree(step, o1, b1, o2, b2),
    ensures
        dag_input(step, o1, b1, init, topo) == dag_input(step, o2, b2, init, topo),
        skipped_by_branch(step, b1) == skipped_by_branch(step, b2),
{
    lemma_pred_entries_agree(step, o1, b1, o2, b2, init, topo, step.predecessors@.len() as int);
    if has_real_pred(step, o1, b1) {
        let i = choose|i: int|
            0 <= i < step.predecessors@.len() && !deselected(step, b1, (#[trigger] step.predecessors@[i])@)
                && o1.contains_key(step.predecessors@[i]@);
        let p = step.predecessors@[i]@;
        assert(!deselected(step, b2, p) && o2.contains_key(p));
    }
    if has_real_pred(step, o2, b2) {
        let i = choose|i: int|
            0 <= i < step.predecessors@.len() && !deselected(step, b2, (#[trigger] step.predecessors@[i])@)
                && o2.contains_key(step.predecessors@[i]@);
        let p = step.predecessors@[i]@;
        assert(!deselected(step, b1, p) && o1.contains_key(p));
    }
    if skipped_by_branch(step, b1) {
        let i = choose|i: int|
            0 <= i < step.predecessors@.len() && b1.contains_key((#[trigger] step.predecessors@[i])@)
                && b1[step.predecessors@[i]@]@ != step.composed.step_id@;
        assert(b2.contains_key(step.predecessors@[i]@));
    }
    if skipped_by_branch(step, b2) {
        let i = choose|i: int|
            0 <= i < step.predecessors@.len() && b2.contains_key((#[trigger] step.predecessors@[i])@)
                && b2[step.predecessors@[i]@]@ != step.composed.step_id@;
        assert(b1.contains_key(step.predecessors@[i]@));
    }
}

/// What the run left for a step it ran (one without a state before): it is
/// skipped exactly when a predecessor branch selected another target, and
/// then has no output; otherwise it completed, an exit, tee, join or branch
/// step with its input as output, a command step with what its run gave on
/// that input.
pub open spec fn routed<E, P: StepPolicy>(
    s: DagStep,
    init: FrameEnvelope,
    topo: Map<Seq<char>, usize>,
    recorded: Map<Seq<char>, StepState>,
    states: Map<Seq<char>, StepState>,
    outputs: Map<Seq<char>, Vec<FrameEnvelope>>,
    sel: Map<Seq<char>, String>,
    ms: Seq<PipeCommandManifest>,
    es: Seq<(String, E)>,
    retry_policy: Option<RetryPolicy>,
    policy: P,
    gated: bool,
) -> bool {
    let id = s.composed.step_id@;
    !recorded.contains_key(id) && states.contains_key(id) ==> {
        &&& (states[id] == StepState::Skipped <==> skipped_by_branch(s, sel))
        &&& outputs.contains_key(id)
        &&& (states[id] == StepState::Completed && s.kind != DagNodeKind::Command ==> outputs[id]@ == dag_input(
            s,
            outputs,
            sel,
            init,
            topo,
        ))
        &&& (states[id] == StepState::Completed && s.kind == DagNodeKind::Command ==> exists|c1: ExecutionContext, c2: ExecutionContext|
            #[trigger] command_step_done(
                s.composed,
                dag_input(s, outputs, sel, init, topo),
                ms,
                es,
                retry_policy,
                policy.decision(s.composed, c1),
                gated,
                c1,
                c2,
                Ok::<Seq<FrameEnvelope>, PipelineError>(outputs[id]@),
            ))
    }
}

/// A step's `routed` facts survive writes at another step's id that is not
/// among its predecessors.
proof fn lemma_routed_kept<E, P: StepPolicy>(
    s: DagStep,
    init: FrameEnvelope,
    topo: Map<Seq<char>, usize>,
    recorded: Map<Seq<char>, StepState>,
    st1: Map<Seq<char>, StepState>,
    o1: Map<Seq<char>, Vec<FrameEnvelope>>,
    b1: Map<Seq<char>, String>,
    st2: Map<Seq<char>, StepState>,
    o2: Map<Seq<char>, Vec<FrameEnvelope>>,
    b2: Map<Seq<char>, String>,
    ms: Seq<PipeCommandManifest>,
    es: Seq<(String, E)>,
    retry_policy: Option<RetryPolicy>,
    policy: P,
    gated: bool,
    k: Seq<char>,
)
    requires
        routed(s, init, topo, recorded, st1, o1, b1, ms, es, retry_policy, policy, gated),
        k != s.composed.step_id@,
        forall|q: int| 0 <= q < s.predecessors@.len() ==> (#[trigger] s.predecessors@[q])@ != k,
        same_except(st1, st2, k),
        same_except(o1, o2, k),
        same_except(b1, b2, k),
    ensures
        routed(s, init, topo, recorded, st2, o2, b2, ms, es, retry_policy, policy, gated),
{
    let id = s.composed.step_id@;
    assert(st1.contains_key(id) == st2.contains_key(id));
    assert(o1.contains_key(id) == o2.contains_key(id));
    assert forall|q: int| 0 <= q < s.predecessors@.len() implies {
        let p = (#[trigger] s.predecessors@[q])@;
        &&& o1.contains_key(p) == o2.contains_key(p)
        &&& o1.contains_key(p) ==> o1[p] == o2[p]
        &&& b1.contains_key(p) == b2.contains_key(p)
        &&& b1.contains_key(p) ==> b1[p] == b2[p]
    } by {
        let p = s.predecessors@[q]@;
        assert(o1.contains_key(p) == o2.contains_key(p));
        assert(b1.contains_key(p) == b2.contains_key(p));
    }
    lemma_reads_preds(s, o1, b1, o2, b2, init, topo);
}

/// `routed` holds of every step.
pub open spec fn all_routed<E, P: StepPolicy>(
    steps: Seq<DagStep>,
    init: FrameEnvelope,
    topo: Map<Seq<char>, usize>,
    recorded: Map<Seq<char>, StepState>,
    states: Map<Seq<char>, StepState>,
    outputs: Map<Seq<char>, Vec<FrameEnvelope>>,
    sel: Map<Seq<char>, String>,
    ms: Seq<PipeCommandManifest>,
    es: Seq<(String, E)>,
    retry_policy: Option<RetryPolicy>,
    policy: P,
    gated: bool,
) -> bool {
    forall|j: int|
        0 <= j < steps.len() ==> routed(#[trigger] steps[j], init, topo, recorded, states, outputs, sel, ms, es, retry_policy, policy, gated)
}

/// Every state without a record before belongs to one of the first `n` steps.
pub open spec fn states_from(steps: Seq<DagStep>, n: int, recorded: Map<Seq<char>, StepState>, states: Map<Seq<char>, StepState>) -> bool {
    forall|id: Seq<char>|
        #[trigger] states.contains_key(id) && !recorded.contains_key(id) ==> exists|j: int|
            0 <= j < n && (#[trigger] steps[j]).composed.step_id@ == id
}

/// Writes at a key that is not among a step's predecessors leave what the
/// step reads unchanged.
proof fn lemma_agree_off_preds(
    s: DagStep,
    o1: Map<Seq<char>, Vec<FrameEnvelope>>,
    b1: Map<Seq<char>, String>,
    o2: Map<Seq<char>, Vec<FrameEnvelope>>,
    b2: Map<Seq<char>, String>,
    k: Seq<char>,
)
    requires
        forall|q: int| 0 <= q < s.predecessors@.len() ==> (#[trigger] s.predecessors@[q])@ != k,
        same_except(o1, o2, k),
        same_except(b1, b2, k),
    ensures
        preds_agree(s, o1, b1, o2, b2),
{
    assert forall|q: int| 0 <= q < s.predecessors@.len() implies {
        let p = (#[trigger] s.predecessors@[q])@;
        &&& o1.contains_key(p) == o2.contains_key(p)
        &&& o1.contains_key(p) ==> o1[p] == o2[p]
        &&& b1.contains_key(p) == b2.contains_key(p)
        &&& b1.contains_key(p) ==> b1[p] == b2[p]
    } by {
        let p = s.predecessors@[q]@;
        assert(o1.contains_key(p) == o2.contains_key(p));
        assert(b1.contains_key(p) == b2.contains_key(p));
    }
}

/// In a well-ordered DAG, a step is not among its own predecessors.
proof fn lemma_not_own_pred(steps: Seq<DagStep>, i: int)
    requires
        well_ordered(steps),
        0 <= i < steps.len(),
    ensures
        forall|q: int| 0 <= q < steps[i].predecessors@.len() ==> (#[trigger] steps[i].predecessors@[q])@ != steps[i].composed.step_id@,
{
    assert forall|q: int| 0 <= q < steps[i].predecessors@.len() implies (#[trigger] steps[i].predecessors@[q])@
        != steps[i].composed.step_id@ by {
        assert(steps[i].predecessors@[q]@ != steps[i].composed.step_id@);
    }
}

/// Running step `i` of a well-ordered DAG, which writes only at its own id,
/// keeps `routed` for every step once it holds for step `i` itself.
proof fn lemma_advance<E, P: StepPolicy>(
    steps: Seq<DagStep>,
    i: int,
    init: FrameEnvelope,
    topo: Map<Seq<char>, usize>,
    recorded: Map<Seq<char>, StepState>,
    st0: Map<Seq<char>, StepState>,
    o0: Map<Seq<char>, Vec<FrameEnvelope>>,
    b0: Map<Seq<char>, String>,
    st1: Map<Seq<char>, StepState>,
    o1: Map<Seq<char>, Vec<FrameEnvelope>>,
    b1: Map<Seq<char>, String>,
    ms: Seq<PipeCommandManifest>,
    es: Seq<(String, E)>,
    retry_policy: Option<RetryPolicy>,
    policy: P,
    gated: bool,
)
    requires
        well_ordered(steps),
        0 <= i < steps.len(),
        all_routed(steps, init, topo, recorded, st0, o0, b0, ms, es, retry_policy, policy, gated),
        states_from(steps, i, recorded, st0),
        same_except(st0, st1, steps[i].composed.step_id@),
        same_except(o0, o1, steps[i].composed.step_id@),
        same_except(b0, b1, steps[i].composed.step_id@),
        routed(steps[i], init, topo, recorded, st1, o1, b1, ms, es, retry_policy, policy, gated),
    ensures
        all_routed(steps, init, topo, recorded, st1, o1, b1, ms, es, retry_policy, policy, gated),
        states_from(steps, i + 1, recorded, st1),
{
    let k = steps[i].composed.step_id@;
    assert forall|j: int| 0 <= j < steps.len() implies routed(
        #[trigger] steps[j],
        init,
        topo,
        recorded,
        st1,
        o1,
        b1,
        ms,
        es,
        retry_policy,
        policy,
        gated,
    ) by {
        if j < i {
            assert(steps[j].composed.step_id@ != steps[i].composed.step_id@);
            assert forall|q: int| 0 <= q < steps[j].predecessors@.len() implies (#[trigger] steps[j].predecessors@[q])@ != k by {
                assert(steps[j].predecessors@[q]@ != steps[i].composed.step_id@);
            }
            lemma_routed_kept(steps[j], init, topo, recorded, st0, o0, b0, st1, o1, b1, ms, es, retry_policy, policy, gated, k);
        } else if j > i {
            let id = steps[j].composed.step_id@;
            assert(steps[i].composed.step_id@ != steps[j].composed.step_id@);
            if st1.contains_key(id) && !recorded.contains_key(id) {
                assert(st0.contains_key(id));
                let j2 = choose|j2: int| 0 <= j2 < i && (#[trigger] steps[j2]).composed.step_id@ == id;
                assert(steps[j2].composed.step_id@ != steps[j].composed.step_id@);
            }
        }
    }
    assert forall|id: Seq<char>| #[trigger] st1.contains_key(id) && !recorded.contains_key(id) implies exists|j: int|
        0 <= j < i + 1 && (#[trigger] steps[j]).composed.step_id@ == id by {
        if id == k {
            assert(steps[i].composed.step_id@ == id);
        } else {
            assert(st0.contains_key(id));
            let j2 = choose|j2: int| 0 <= j2 < i && (#[trigger] steps[j2]).composed.step_id@ == id;
            assert(steps[j2].composed.step_id@ == id);
        }
    }
}

/// Why a DAG run can fail: a checkpoint of some step could not be saved
/// (when checkpoints are kept), the lifecycle refused an event (when it is
/// tracked), or a command step's run on its input gave the error.
pub open spec fn dag_failure<E, P: StepPolicy>(
    steps: Seq<DagStep>,
    init: FrameEnvelope,
    topo: Map<Seq<char>, usize>,
    outputs: Map<Seq<char>, Vec<FrameEnvelope>>,
    sel: Map<Seq<char>, String>,
    ms: Seq<PipeCommandManifest>,
    es: Seq<(String, E)>,
    retry_policy: Option<RetryPolicy>,
    policy: P,
    gated: bool,
    save: bool,
    track: bool,
    e: PipelineError,
) -> bool {
    ||| (save && exists|j: int| 0 <= j < steps.len() && e == step_error((#[trigger] steps[j]).composed, false, ErrorKind::ComposeFailed))
    ||| (track && is_run_level(e))
    ||| exists|j: int, c1: ExecutionContext, c2: ExecutionContext|
        0 <= j < steps.len() && steps[j].kind == DagNodeKind::Command && #[trigger] command_step_done(
            steps[j].composed,
            dag_input(steps[j], outputs, sel, init, topo),
            ms,
            es,
            retry_policy,
            policy.decision(steps[j].composed, c1),
            gated,
            c1,
            c2,
            Err::<Seq<FrameEnvelope>, PipelineError>(e),
        )
}

/// The stores a run went through: each saved the next checkpoint, with the
/// answer it gave.
pub open spec fn save_chain<S: CheckpointStore>(
    stores: Seq<S>,
    cps: Seq<Checkpoint>,
    answers: Seq<Result<(), CheckpointError>>,
) -> bool {
    &&& stores.len() == cps.len() + 1
    &&& answers.len() == cps.len()
    &&& forall|j: int| 0 <= j < cps.len() ==> #[trigger] stores[j].saves(&stores[j + 1], cps[j], answers[j])
}

/// Every save was answered `Ok`.
pub open spec fn all_saved(answers: Seq<Result<(), CheckpointError>>) -> bool {
    forall|j: int| 0 <= j < answers.len() ==> (#[trigger] answers[j]) is Ok
}

/// Every step with a state it did not have before has a checkpoint holding
/// that state and its output.
pub open spec fn settled_saved(
    states: Map<Seq<char>, StepState>,
    outputs: Map<Seq<char>, Vec<FrameEnvelope>>,
    recorded: Map<Seq<char>, StepState>,
    cps: Seq<Checkpoint>,
) -> bool {
    forall|id: Seq<char>|
        #[trigger] states.contains_key(id) && !recorded.contains_key(id) ==> exists|j: int|
            0 <= j < cps.len() && (#[trigger] cps[j]).step_id@ == id && cps[j].step_state == states[id] && outputs.contains_key(id)
                && cps[j].output_frames@ == outputs[id]@
}

/// Saving one more checkpoint extends the chain.
proof fn lemma_chain_push<S: CheckpointStore>(
    stores: Seq<S>,
    cps: Seq<Checkpoint>,
    answers: Seq<Result<(), CheckpointError>>,
    next: S,
    cp: Checkpoint,
    answer: Result<(), CheckpointError>,
)
    requires
        save_chain(stores, cps, answers),
        stores.last().saves(&next, cp, answer),
    ensures
        save_chain(stores.push(next), cps.push(cp), answers.push(answer)),
        stores.push(next)[0] == stores[0],
        all_saved(answers) && answer is Ok ==> all_saved(answers.push(answer)),
{
    let s2 = stores.push(next);
    assert forall|j: int| 0 <= j < cps.push(cp).len() implies #[trigger] s2[j].saves(&s2[j + 1], cps.push(cp)[j], answers.push(answer)[j]) by {
        if j < cps.len() {
            assert(s2[j] == stores[j] && s2[j + 1] == stores[j + 1]);
        }
    }
    if all_saved(answers) && answer is Ok {
        assert forall|j: int| 0 <= j < answers.push(answer).len() implies (#[trigger] answers.push(answer)[j]) is Ok by {
            if j < answers.len() {
                assert(answers.push(answer)[j] == answers[j]);
            }
        }
    }
}

/// A step settled and checkpointed keeps every settled step checkpointed.
proof fn lemma_settled_push(
    st0: Map<Seq<char>, StepState>,
    o0: Map<Seq<char>, Vec<FrameEnvelope>>,
    st1: Map<Seq<char>, StepState>,
    o1: Map<Seq<char>, Vec<FrameEnvelope>>,
    recorded: Map<Seq<char>, StepState>,
    cps: Seq<Checkpoint>,
    cp: Checkpoint,
    k: Seq<char>,
)
    requires
        settled_saved(st0, o0, recorded, cps),
        same_except(st0, st1, k),
        same_except(o0, o1, k),
        st1.contains_key(k),
        o1.contains_key(k),
        cp.step_id@ == k,
        cp.step_state == st1[k],
        cp.output_frames@ == o1[k]@,
    ensures
        settled_saved(st1, o1, recorded, cps.push(cp)),
{
    let c2 = cps.push(cp);
    assert forall|id: Seq<char>| #[trigger] st1.contains_key(id) && !recorded.contains_key(id) implies exists|j: int|
        0 <= j < c2.len() && (#[trigger] c2[j]).step_id@ == id && c2[j].step_state == st1[id] && o1.contains_key(id)
            && c2[j].output_frames@ == o1[id]@ by {
        if id == k {
            assert(c2[cps.len() as int] == cp);
        } else {
            assert(st0.contains_key(id));
            let j = choose|j: int|
                0 <= j < cps.len() && (#[trigger] cps[j]).step_id@ == id && cps[j].step_state == st0[id] && o0.contains_key(id)
                    && cps[j].output_frames@ == o0[id]@;
            assert(c2[j] == cps[j]);
        }
    }
}

/// Why a DAG runner can fail: as a whole (an empty DAG, checkpoints that
/// could not be loaded, a refused lifecycle event), or as `dag_failure` says
/// of some run state.
pub open spec fn run_failed<E, P: StepPolicy>(
    dag: DagPipeline,
    ms: Seq<PipeCommandManifest>,
    es: Seq<(String, E)>,
    retry_policy: Option<RetryPolicy>,
    policy: P,
    gated: bool,
    save: bool,
    track: bool,
    e: PipelineError,
) -> bool {
    ||| is_run_level(e)
    ||| exists|init: FrameEnvelope, outs: Map<Seq<char>, Vec<FrameEnvelope>>, sel: Map<Seq<char>, String>|
        #[trigger] dag_failure(dag.steps@, init, step_positions(dag.steps@), outs, sel, ms, es, retry_policy, policy, gated, save, track, e)
}

/// Every command step of the DAG has a recorded state.
pub open spec fn commands_recorded(steps: Seq<DagStep>, recorded: Map<Seq<char>, StepState>) -> bool {
    forall|j: int| 0 <= j < steps.len() && (#[trigger] steps[j]).kind == DagNodeKind::Command ==> recorded.contains_key(steps[j].composed.step_id@)
}

/// Runs the DAG's steps in order. A step with a recorded state is not run
/// again (a branch step only selects its target anew); a step cut off by a
/// branch is skipped with no output; an exit step passes its input on; a
/// command step runs (see `run_command_step`); tee, branch and join steps
/// pass their input on, a branch selecting its target. Each new state is
/// checkpointed when checkpoints are kept, and the lifecycle follows the run
/// when it is tracked. The first failure ends the run.
#[allow(clippy::too_many_arguments)]
pub fn execute_dag_core<E: CommandExecutor, P: StepPolicy, S: CheckpointStore, G: ApprovalGate, B: Backoff>(
    dag: &DagPipeline,
    initial_input: serde_json::Value,
    registry: &CommandRegistry,
    executors: &Vec<(String, E)>,
    policy: &P,
    ctx: &mut ExecutionContext,
    store: &mut S,
    save: bool,
    retry_policy: Option<RetryPolicy>,
    backoff: &mut B,
    step_outputs: &mut KeyedMap<Vec<FrameEnvelope>>,
    step_states: &mut KeyedMap<StepState>,
    branch_selections: &mut KeyedMap<String>,
    gate: &mut G,
    gated: bool,
    sm: &mut PipelineStateMachine,
    track: bool,
) -> (r: Result<(), PipelineError>)
    requires
        old(step_outputs).wf(),
        old(step_states).wf(),
        old(branch_selections).wf(),
        gated ==> old(gate).ready(),
        retry_policy matches Some(rp) ==> rp.max_attempts >= 1,
    ensures
        final(step_outputs).wf(),
        final(step_states).wf(),
        final(branch_selections).wf(),
        gated ==> final(gate).ready(),
        keeps_recorded(old(step_states)@, final(step_states)@, old(step_states)@),
        keeps_recorded(old(step_outputs)@, final(step_outputs)@, old(step_states)@),
        skips_empty(final(step_states)@, final(step_outputs)@, old(step_states)@),
        new_states_settled(final(step_states)@, old(step_states)@),
        !save ==> *final(store) == *old(store),
        !track ==> *final(sm) == *old(sm),
        !gated ==> *final(gate) == *old(gate),
        track && r is Ok ==> final(sm).state == PipelineState::Completed,
        save ==> exists|stores: Seq<S>, cps: Seq<Checkpoint>, answers: Seq<Result<(), CheckpointError>>|
            #[trigger] save_chain(stores, cps, answers) && stores[0] == *old(store) && stores.last() == *final(store) && (r is Ok
                ==> all_saved(answers) && settled_saved(final(step_states)@, final(step_outputs)@, old(step_states)@, cps)),
        track && old(sm).state != PipelineState::Completed && r is Err ==> final(sm).state != PipelineState::Completed,
        !save && !track && commands_recorded(dag.steps@, old(step_states)@) ==> r is Ok,
        exists|init: FrameEnvelope|
            #[trigger] run_start(init, *dag, initial_input) && (well_ordered(dag.steps@) ==> all_routed(
                dag.steps@,
                init,
                step_positions(dag.steps@),
                old(step_states)@,
                final(step_states)@,
                final(step_outputs)@,
                final(branch_selections)@,
                registry.manifests(),
                executors@,
                retry_policy,
                *policy,
                gated,
            )),
        r matches Err(e) ==> exists|init: FrameEnvelope|
            #[trigger] run_start(init, *dag, initial_input) && dag_failure(
                dag.steps@,
                init,
                step_positions(dag.steps@),
                final(step_outputs)@,
                final(branch_selections)@,
                registry.manifests(),
                executors@,
                retry_policy,
                *policy,
                gated,
                save,
                track,
                e,
            ),
        r is Ok ==> forall|i: int| 0 <= i < dag.steps@.len() ==> final(step_states)@.contains_key(
            (#[trigger] dag.steps@[i]).composed.step_id@,
        ),
{
    let ghost recorded = step_states@;
    let ghost outs0 = step_outputs@;
    let ghost mut stores: Seq<S> = seq![*store];
    let ghost mut cps: Seq<Checkpoint> = Seq::empty();
    let ghost mut answers: Seq<Result<(), CheckpointError>> = Seq::empty();
    proof {
        assert(save_chain(stores, cps, answers));
    }
    let ghost ms = registry.manifests();
    let ghost es = executors@;
    let ghost ordered = well_ordered(dag.steps@);
    let initial = FrameEnvelope { seq: 0, step_id: owned("input"), frame_type: dag.input_type.0, payload: initial_input };
    assert(run_start(initial, *dag, initial_input));
    let mut topo_order: KeyedMap<usize> = KeyedMap::new();
    let mut t: usize = 0;
    while t < dag.steps.len()
        invariant
            t <= dag.steps@.len(),
            topo_order.wf(),
            topo_order@ == step_positions(dag.steps@.take(t as int)),
        decreases dag.steps@.len() - t,
    {
        proof {
            assert(dag.steps@.take(t + 1).drop_last() =~= dag.steps@.take(t as int));
        }
        topo_order.insert(dag.steps[t].composed.step_id.clone(), t);
        t = t + 1;
    }
    assert(dag.steps@.take(t as int) =~= dag.steps@);
    let ghost topo = topo_order@;
    proof {
        if ordered {
            assert forall|j: int| 0 <= j < dag.steps@.len() implies routed(
                #[trigger] dag.steps@[j],
                initial,
                topo,
                recorded,
                step_states@,
                step_outputs@,
                branch_selections@,
                ms,
                es,
                retry_policy,
                *policy,
                gated,
            ) by {}
        }
    }
    if track {
        transition_or_fail(sm, StateEvent::Start)?;
    }
    let mut i: usize = 0;
    while i < dag.steps.len()
        invariant
            i <= dag.steps@.len(),
            topo_order.wf(),
            step_outputs.wf(),
            step_states.wf(),
            branch_selections.wf(),
            gated ==> gate.ready(),
            retry_policy matches Some(rp) ==> rp.max_attempts >= 1,
            recorded == old(step_states)@,
            outs0 == old(step_outputs)@,
            ms == registry.manifests(),
            es == executors@,
            ordered == well_ordered(dag.steps@),
            topo == topo_order@,
            topo == step_positions(dag.steps@),
            run_start(initial, *dag, initial_input),
            keeps_recorded(recorded, step_states@, recorded),
            keeps_recorded(outs0, step_outputs@, recorded),
            skips_empty(step_states@, step_outputs@, recorded),
            new_states_settled(step_states@, recorded),
            !save ==> *store == *old(store),
            !track ==> *sm == *old(sm),
            !gated ==> *gate == *old(gate),
            track && old(sm).state != PipelineState::Completed ==> sm.state != PipelineState::Completed,
            save_chain(stores, cps, answers),
            stores[0] == *old(store),
            stores.last() == *store,
            all_saved(answers),
            save ==> settled_saved(step_states@, step_outputs@, recorded, cps),
            forall|j: int| 0 <= j < i ==> step_states@.contains_key((#[trigger] dag.steps@[j]).composed.step_id@),
            ordered ==> all_routed(dag.steps@, initial, topo, recorded, step_states@, step_outputs@, branch_selections@, ms, es, retry_policy, *policy, gated),
            ordered ==> states_from(dag.steps@, i as int, recorded, step_states@),
        decreases dag.steps@.len() - i,
    {
        let ghost st0 = step_states@;
        let ghost o0 = step_outputs@;
        let ghost b0 = branch_selections@;
        let step = &dag.steps[i];
        let id = step.composed.step_id.as_str();
        proof {
            if ordered {
                lemma_not_own_pred(dag.steps@, i as int);
            }
        }
        if step_states.contains_key(id) {
            if step.kind == DagNodeKind::Branch {
                let input = resolve_dag_input(step, step_outputs, branch_selections, &initial, &topo_order);
                if let Some(target) = evaluate_branch(step, &input) {
                    branch_selections.insert(step.composed.step_id.clone(), target);
                }
            }
            proof {
                if ordered {
                    let sid = step.composed.step_id@;
                    if !recorded.contains_key(sid) {
                        let j2 = choose|j2: int| 0 <= j2 < i && (#[trigger] dag.steps@[j2]).composed.step_id@ == sid;
                        assert(dag.steps@[j2].composed.step_id@ != dag.steps@[i as int].composed.step_id@);
                    }
                    lemma_advance(dag.steps@, i as int, initial, topo, recorded, st0, o0, b0, step_states@, step_outputs@,
                        branch_selections@, ms, es, retry_policy, *policy, gated);
                }
            }
            i = i + 1;
            continue;
        }
        if should_skip_step(step, branch_selections) {
            step_states.insert(step.composed.step_id.clone(), StepState::Skipped);
            step_outputs.insert(step.composed.step_id.clone(), Vec::new());
            proof {
                if ordered {
                    lemma_advance(dag.steps@, i as int, initial, topo, recorded, st0, o0, b0, step_states@, step_outputs@,
                        branch_selections@, ms, es, retry_policy, *policy, gated);
                }
            }
            if save {
                let empty: Vec<FrameEnvelope> = Vec::new();
            let ghost store_before = *store;
            let saved = save_checkpoint(store, dag, step, &empty, StepState::Skipped, ctx);
            proof {
                let store_after = *store;
                let (cp, answer) = choose|cp: Checkpoint, answer: Result<(), CheckpointError>|
                    #[trigger] store_before.saves(&store_after, cp, answer) && checkpoint_of(*dag, *step, empty@, StepState::Skipped, ctx.resource_used, cp)
                        && (saved is Ok <==> answer is Ok);
                lemma_chain_push(stores, cps, answers, store_after, cp, answer);
                lemma_settled_push(st0, o0, step_states@, step_outputs@, recorded, cps, cp, step.composed.step_id@);
                stores = stores.push(store_after);
                cps = cps.push(cp);
                answers = answers.push(answer);
            }
            saved?;
            }
            i = i + 1;
            continue;
        }
        if step.kind == DagNodeKind::Exit {
            let input = resolve_dag_input(step, step_outputs, branch_selections, &initial, &topo_order);
            let kept = clone_frames(&input);
            step_outputs.insert(step.composed.step_id.clone(), kept);
            step_states.insert(step.composed.step_id.clone(), StepState::Completed);
            proof {
                if ordered {
                    lemma_agree_off_preds(*step, o0, b0, step_outputs@, branch_selections@, step.composed.step_id@);
                    lemma_reads_preds(*step, o0, b0, step_outputs@, branch_selections@, initial, topo);
                    lemma_advance(dag.steps@, i as int, initial, topo, recorded, st0, o0, b0, step_states@, step_outputs@,
                        branch_selections@, ms, es, retry_policy, *policy, gated);
                }
            }
            if save {
            let ghost store_before = *store;
            let saved = save_checkpoint(store, dag, step, &input, StepState::Completed, ctx);
            proof {
                let store_after = *store;
                let (cp, answer) = choose|cp: Checkpoint, answer: Result<(), CheckpointError>|
                    #[trigger] store_before.saves(&store_after, cp, answer) && checkpoint_of(*dag, *step, input@, StepState::Completed, ctx.resource_used, cp)
                        && (saved is Ok <==> answer is Ok);
                lemma_chain_push(stores, cps, answers, store_after, cp, answer);
                lemma_settled_push(st0, o0, step_states@, step_outputs@, recorded, cps, cp, step.composed.step_id@);
                stores = stores.push(store_after);
                cps = cps.push(cp);
                answers = answers.push(answer);
            }
            saved?;
            }
            i = i + 1;
            continue;
        }
        let input_frames = resolve_dag_input(step, step_outputs, branch_selections, &initial, &topo_order);
        let ghost input_view = input_frames@;
        let ghost c1 = *ctx;
        let step_result = match step.kind {
            DagNodeKind::Command => {
                if track {
                    transition_or_fail(sm, StateEvent::StepStarted { step_id: step.composed.step_id.clone() })?;
                }
                run_command_step(step, input_frames, registry, executors, policy, ctx, retry_policy, backoff, gate, gated, sm, track)
            },
            DagNodeKind::Branch => {
                if let Some(target) = evaluate_branch(step, &input_frames) {
                    branch_selections.insert(step.composed.step_id.clone(), target);
                }
                Ok(input_frames)
            },
            _ => Ok(input_frames),
        };
        let ghost c2 = *ctx;
        let output_frames = match step_result {
            Ok(frames) => frames,
            Err(err) => {
                proof {
                    assert(command_step_done(
                        dag.steps@[i as int].composed,
                        dag_input(dag.steps@[i as int], step_outputs@, branch_selections@, initial, topo),
                        ms,
                        es,
                        retry_policy,
                        policy.decision(dag.steps@[i as int].composed, c1),
                        gated,
                        c1,
                        *ctx,
                        Err::<Seq<FrameEnvelope>, PipelineError>(err),
                    ));
                }
                if track {
                    let exhausted = retry_policy.is_some() && err.retryable;
                    let _ = sm.transition(StateEvent::StepFailed {
                        step_id: step.composed.step_id.clone(),
                        retryable: !exhausted && err.retryable,
                    });
                }
                return Err(err);
            },
        };
        let kept = clone_frames(&output_frames);
        step_outputs.insert(step.composed.step_id.clone(), kept);
        step_states.insert(step.composed.step_id.clone(), StepState::Completed);
        proof {
            if ordered {
                lemma_agree_off_preds(*step, o0, b0, step_outputs@, branch_selections@, step.composed.step_id@);
                lemma_reads_preds(*step, o0, b0, step_outputs@, branch_selections@, initial, topo);
                if step.kind == DagNodeKind::Command {
                    assert(command_step_done(
                        step.composed,
                        dag_input(*step, step_outputs@, branch_selections@, initial, topo),
                        ms,
                        es,
                        retry_policy,
                        policy.decision(step.composed, c1),
                        gated,
                        c1,
                        c2,
                        Ok::<Seq<FrameEnvelope>, PipelineError>(step_outputs@[step.composed.step_id@]@),
                    ));
                }
                lemma_advance(dag.steps@, i as int, initial, topo, recorded, st0, o0, b0, step_states@, step_outputs@,
                    branch_selections@, ms, es, retry_policy, *policy, gated);
            }
        }
        if track {
            transition_or_fail(sm, StateEvent::StepCompleted { step_id: step.composed.step_id.clone() })?;
        }
        if save {
            let ghost store_before = *store;
            let saved = save_checkpoint(store, dag, step, &output_frames, StepState::Completed, ctx);
            proof {
                let store_after = *store;
                let (cp, answer) = choose|cp: Checkpoint, answer: Result<(), CheckpointError>|
                    #[trigger] store_before.saves(&store_after, cp, answer) && checkpoint_of(*dag, *step, output_frames@, StepState::Completed, ctx.resource_used, cp)
                        && (saved is Ok <==> answer is Ok);
                lemma_chain_push(stores, cps, answers, store_after, cp, answer);
                lemma_settled_push(st0, o0, step_states@, step_outputs@, recorded, cps, cp, step.composed.step_id@);
                stores = stores.push(store_after);
                cps = cps.push(cp);
                answers = answers.push(answer);
            }
            saved?;
        }
        i = i + 1;
    }
    if track {
        transition_or_fail(sm, StateEvent::Complete)?;
    }
    Ok(())
}

// ---------------------------------------------------------------------------
// The run's output and the entry points
// ---------------------------------------------------------------------------

/// The outputs of the exit steps that have one, in step order.
pub open spec fn exit_outputs(steps: Seq<DagStep>, outputs: Map<Seq<char>, Vec<FrameEnvelope>>) -> Seq<Seq<FrameEnvelope>>
    decreases steps.len(),
{
    if steps.len() == 0 {
        Seq::empty()
    } else {
        let prev = exit_outputs(steps.drop_last(), outputs);
        let s = steps.last();
        if s.kind == DagNodeKind::Exit && outputs.contains_key(s.composed.step_id@) {
            prev.push(outputs[s.composed.step_id@]@)
        } else {
            prev
        }
    }
}

/// The last step that is not an exit.
pub open spec fn last_non_exit(steps: Seq<DagStep>) -> Option<int> {
    if exists|k: int| 0 <= k < steps.len() && (#[trigger] steps[k]).kind != DagNodeKind::Exit {
        Some(choose|k: int| 0 <= k < steps.len() && (#[trigger] steps[k]).kind != DagNodeKind::Exit
            && forall|j: int| k < j < steps.len() ==> (#[trigger] steps[j]).kind == DagNodeKind::Exit)
    } else {
        None
    }
}

/// A run's output: the exit steps' outputs joined in step order, or, with no
/// exit output, the output of the last step that is not an exit (none if it
/// has none).
pub open spec fn final_output(dag: DagPipeline, outputs: Map<Seq<char>, Vec<FrameEnvelope>>) -> Seq<FrameEnvelope> {
    let ex = exit_outputs(dag.steps@, outputs);
    if ex.len() > 0 {
        ex.flatten()
    } else {
        match last_non_exit(dag.steps@) {
            Some(k) => if outputs.contains_key(dag.steps@[k].composed.step_id@) {
                outputs[dag.steps@[k].composed.step_id@]@
            } else {
                Seq::empty()
            },
            None => Seq::empty(),
        }
    }
}

/// A run's output (see `final_output`).
pub fn collect_output(dag: &DagPipeline, step_outputs: &KeyedMap<Vec<FrameEnvelope>>) -> (r: Vec<FrameEnvelope>)
    requires
        step_outputs.wf(),
    ensures
        r@ == final_output(*dag, step_outputs@),
{
    let ghost outs = step_outputs@;
    let mut joined: Vec<FrameEnvelope> = Vec::new();
    let mut count: usize = 0;
    let mut i: usize = 0;
    while i < dag.steps.len()
        invariant
            i <= dag.steps@.len(),
            step_outputs.wf(),
            outs == step_outputs@,
            joined@ == exit_outputs(dag.steps@.take(i as int), outs).flatten(),
            count == exit_outputs(dag.steps@.take(i as int), outs).len(),
            count <= i,
        decreases dag.steps@.len() - i,
    {
        let step = &dag.steps[i];
        assert(dag.steps@.take(i + 1).drop_last() =~= dag.steps@.take(i as int));
        if step.kind == DagNodeKind::Exit {
            if let Some(f) = step_outputs.get(step.composed.step_id.as_str()) {
                proof {
                    exit_outputs(dag.steps@.take(i as int), outs).lemma_flatten_push(f@);
                }
                append_frames(&mut joined, f);
                count = count + 1;
            }
        }
        i = i + 1;
    }
    assert(dag.steps@.take(i as int) =~= dag.steps@);
    if count > 0 {
        return joined;
    }
    let mut k: usize = dag.steps.len();
    while k > 0
        invariant
            k <= dag.steps@.len(),
            step_outputs.wf(),
            outs == step_outputs@,
            exit_outputs(dag.steps@, outs).len() == 0,
            forall|j: int| k <= j < dag.steps@.len() ==> (#[trigger] dag.steps@[j]).kind == DagNodeKind::Exit,
        decreases k,
    {
        if dag.steps[k - 1].kind != DagNodeKind::Exit {
            assert(last_non_exit(dag.steps@) == Some(k - 1));
            return match step_outputs.get(dag.steps[k - 1].composed.step_id.as_str()) {
                Some(f) => clone_frames(f),
                None => Vec::new(),
            };
        }
        k = k - 1;
    }
    assert(last_non_exit(dag.steps@) is None);
    Vec::new()
}

/// Waits nothing: for runs without a retry policy.
struct NoBackoff;

impl Backoff for NoBackoff {
    fn wait_ms(&mut self, ms: u64) {
    }
}

/// A run state the run reached from the recorded states and outputs: every
/// step has a state, recorded steps keep theirs, steps skipped anew have no
/// output, and in a well-ordered DAG every step ran as `routed` says.
pub open spec fn run_reached<E, P: StepPolicy>(
    dag: DagPipeline,
    payload: serde_json::Value,
    ms: Seq<PipeCommandManifest>,
    es: Seq<(String, E)>,
    retry_policy: Option<RetryPolicy>,
    policy: P,
    gated: bool,
    rec_states: Map<Seq<char>, StepState>,
    rec_outputs: Map<Seq<char>, Seq<FrameEnvelope>>,
    states: Map<Seq<char>, StepState>,
    outputs: Map<Seq<char>, Vec<FrameEnvelope>>,
    sel: Map<Seq<char>, String>,
    init: FrameEnvelope,
) -> bool {
    &&& run_start(init, dag, payload)
    &&& forall|i: int| 0 <= i < dag.steps@.len() ==> states.contains_key((#[trigger] dag.steps@[i]).composed.step_id@)
    &&& keeps_recorded(rec_states, states, rec_states)
    &&& forall|id: Seq<char>|
        #[trigger] rec_states.contains_key(id) && rec_outputs.contains_key(id) ==> outputs.contains_key(id) && outputs[id]@
            == rec_outputs[id]
    &&& skips_empty(states, outputs, rec_states)
    &&& new_states_settled(states, rec_states)
    &&& well_ordered(dag.steps@) ==> all_routed(
        dag.steps@,
        init,
        step_positions(dag.steps@),
        rec_states,
        states,
        outputs,
        sel,
        ms,
        es,
        retry_policy,
        policy,
        gated,
    )
}

/// The state each checkpointed step takes: that of its last checkpoint.
pub open spec fn restored_states(views: Seq<CheckpointView>) -> Map<Seq<char>, StepState>
    decreases views.len(),
{
    if views.len() == 0 {
        Map::empty()
    } else {
        restored_states(views.drop_last()).insert(views.last().1, views.last().3)
    }
}

/// The output each checkpointed step takes: that of its last checkpoint.
pub open spec fn restored_outputs(views: Seq<CheckpointView>) -> Map<Seq<char>, Seq<FrameEnvelope>>
    decreases views.len(),
{
    if views.len() == 0 {
        Map::empty()
    } else {
        restored_outputs(views.drop_last()).insert(views.last().1, views.last().2)
    }
}

/// The step states and outputs that checkpoints record (see
/// `restored_states` and `restored_outputs`).
pub fn restore_checkpoints(checkpoints: &Vec<Checkpoint>) -> (r: (KeyedMap<Vec<FrameEnvelope>>, KeyedMap<StepState>))
    ensures
        r.0.wf(),
        r.1.wf(),
        r.1@ == restored_states(cp_views(checkpoints@)),
        r.0@.dom() == restored_outputs(cp_views(checkpoints@)).dom(),
        forall|id: Seq<char>| #[trigger] r.0@.contains_key(id) ==> r.0@[id]@ == restored_outputs(cp_views(checkpoints@))[id],
{
    let mut outputs: KeyedMap<Vec<FrameEnvelope>> = KeyedMap::new();
    let mut states: KeyedMap<StepState> = KeyedMap::new();
    let mut c: usize = 0;
    while c < checkpoints.len()
        invariant
            c <= checkpoints@.len(),
            outputs.wf(),
            states.wf(),
            states@ == restored_states(cp_views(checkpoints@.take(c as int))),
            outputs@.dom() == restored_outputs(cp_views(checkpoints@.take(c as int))).dom(),
            forall|id: Seq<char>| #[trigger] outputs@.contains_key(id) ==> outputs@[id]@ == restored_outputs(cp_views(checkpoints@.take(c as int)))[id],
        decreases checkpoints@.len() - c,
    {
        proof {
            assert(cp_views(checkpoints@.take(c + 1)).drop_last() =~= cp_views(checkpoints@.take(c as int)));
            assert(cp_views(checkpoints@.take(c + 1)).last() == cp_view(checkpoints@[c as int]));
        }
        outputs.insert(checkpoints[c].step_id.clone(), clone_frames(&checkpoints[c].output_frames));
        states.insert(checkpoints[c].step_id.clone(), checkpoints[c].step_state);
        proof {
            let v = cp_views(checkpoints@.take(c + 1));
            assert(outputs@.dom() =~= restored_outputs(v).dom());
        }
        c = c + 1;
    }
    assert(checkpoints@.take(c as int) =~= checkpoints@);
    (outputs, states)
}

/// What a finished run owes: its output taken from a run state it reached
/// (see `run_reached`), and the audit trail of the context.
pub open spec fn run_finished<E, P: StepPolicy>(
    dag: DagPipeline,
    payload: serde_json::Value,
    ms: Seq<PipeCommandManifest>,
    es: Seq<(String, E)>,
    retry_policy: Option<RetryPolicy>,
    policy: P,
    gated: bool,
    rec_states: Map<Seq<char>, StepState>,
    rec_outputs: Map<Seq<char>, Seq<FrameEnvelope>>,
    ctx: ExecutionContext,
    res: RunResult,
) -> bool {
    &&& exists|states: Map<Seq<char>, StepState>, outputs: Map<Seq<char>, Vec<FrameEnvelope>>, sel: Map<Seq<char>, String>, init: FrameEnvelope|
        #[trigger] run_reached(dag, payload, ms, es, retry_policy, policy, gated, rec_states, rec_outputs, states, outputs, sel, init)
            && final_output(dag, outputs) == res.output@
    &&& res.audit@ == ctx.audit@
}

/// No step of the DAG runs a command.
pub open spec fn no_command_steps(steps: Seq<DagStep>) -> bool {
    forall|j: int| 0 <= j < steps.len() ==> (#[trigger] steps[j]).kind != DagNodeKind::Command
}

/// The error of a DAG without steps.
pub open spec fn is_empty_dag_error(e: PipelineError) -> bool {
    !e.retryable && e.failed_step_id@ == Seq::<char>::empty() && e.error_kind == ErrorKind::ComposeFailed
}

/// Runs a DAG pipeline from scratch with the executors, under the policy.
pub fn run_dag<E: CommandExecutor, P: StepPolicy>(
    dag: &DagPipeline,
    initial_input: serde_json::Value,
    registry: &CommandRegistry,
    executors: &Vec<(String, E)>,
    policy: &P,
    ctx: &mut ExecutionContext,
) -> (r: Result<RunResult, PipelineError>)
    ensures
        dag.steps@.len() == 0 ==> (r matches Err(e) && is_empty_dag_error(e)),
        dag.steps@.len() > 0 && no_command_steps(dag.steps@) ==> r is Ok,
        r matches Ok(res) ==> run_finished(*dag, initial_input, registry.manifests(), executors@, None, *policy, false,
            Map::empty(), Map::empty(), *final(ctx), res),
        r matches Err(e) ==> run_failed(*dag, registry.manifests(), executors@, None, *policy, false, false, false, e),
{
    let mut store = InMemoryCheckpointStore::new();
    let mut backoff = NoBackoff;
    run_dag_with_checkpoint_inner(dag, initial_input, registry, executors, policy, ctx, &mut store, false, None, &mut backoff)
}

#[allow(clippy::too_many_arguments)]
fn run_dag_with_checkpoint_inner<E: CommandExecutor, P: StepPolicy, S: CheckpointStore, B: Backoff>(
    dag: &DagPipeline,
    initial_input: serde_json::Value,
    registry: &CommandRegistry,
    executors: &Vec<(String, E)>,
    policy: &P,
    ctx: &mut ExecutionContext,
    store: &mut S,
    save: bool,
    retry_policy: Option<RetryPolicy>,
    backoff: &mut B,
) -> (r: Result<RunResult, PipelineError>)
    requires
        retry_policy matches Some(rp) ==> rp.max_attempts >= 1,
    ensures
        dag.steps@.len() == 0 ==> (r matches Err(e) && is_empty_dag_error(e)),
        !save && dag.steps@.len() > 0 && no_command_steps(dag.steps@) ==> r is Ok,
        r matches Ok(res) ==> run_finished(*dag, initial_input, registry.manifests(), executors@, retry_policy, *policy, false,
            Map::empty(), Map::empty(), *final(ctx), res),
        r matches Err(e) ==> run_failed(*dag, registry.manifests(), executors@, retry_policy, *policy, false, save, false, e),
{
    if dag.steps.len() == 0 {
        return Err(run_level_failure());
    }
    let ghost payload = initial_input;
    let mut step_outputs: KeyedMap<Vec<FrameEnvelope>> = KeyedMap::new();
    let mut step_states: KeyedMap<StepState> = KeyedMap::new();
    let mut branch_selections: KeyedMap<String> = KeyedMap::new();
    let mut gate = InMemoryApprovalGate::new();
    let mut sm = PipelineStateMachine::new(dag.pipeline_id.clone());
    let core = execute_dag_core(
        dag,
        initial_input,
        registry,
        executors,
        policy,
        ctx,
        store,
        save,
        retry_policy,
        backoff,
        &mut step_outputs,
        &mut step_states,
        &mut branch_selections,
        &mut gate,
        false,
        &mut sm,
        false,
    );
    if let Err(e) = core {
        return Err(e);
    }
    let output = collect_output(dag, &step_outputs);
    let audit = clone_audit(&ctx.audit);
    let res = RunResult { output, audit };
    proof {
        let init = choose|init: FrameEnvelope|
            #[trigger] run_start(init, *dag, payload) && (well_ordered(dag.steps@) ==> all_routed(
                dag.steps@,
                init,
                step_positions(dag.steps@),
                Map::empty(),
                step_states@,
                step_outputs@,
                branch_selections@,
                registry.manifests(),
                executors@,
                retry_policy,
                *policy,
                false,
            ));
        assert(run_reached(*dag, payload, registry.manifests(), executors@, retry_policy, *policy, false, Map::empty(),
            Map::empty(), step_states@, step_outputs@, branch_selections@, init));
    }
    Ok(res)
}

/// Runs a DAG pipeline from scratch, checkpointing each step and retrying
/// failed steps by the retry policy.
#[allow(clippy::too_many_arguments)]
pub fn run_dag_with_checkpoint<E: CommandExecutor, P: StepPolicy, S: CheckpointStore, B: Backoff>(
    dag: &DagPipeline,
    initial_input: serde_json::Value,
    registry: &CommandRegistry,
    executors: &Vec<(String, E)>,
    policy: &P,
    ctx: &mut ExecutionContext,
    checkpoint_store: &mut S,
    retry_policy: Option<RetryPolicy>,
    backoff: &mut B,
) -> (r: Result<RunResult, PipelineError>)
    requires
        retry_policy matches Some(rp) ==> rp.max_attempts >= 1,
    ensures
        dag.steps@.len() == 0 ==> (r matches Err(e) && is_empty_dag_error(e)),
        r matches Ok(res) ==> run_finished(*dag, initial_input, registry.manifests(), executors@, retry_policy, *policy, false,
            Map::empty(), Map::empty(), *final(ctx), res),
        r matches Err(e) ==> run_failed(*dag, registry.manifests(), executors@, retry_policy, *policy, false, true, false, e),
{
    run_dag_with_checkpoint_inner(dag, initial_input, registry, executors, policy, ctx, checkpoint_store, true, retry_policy, backoff)
}

/// Resumes a DAG pipeline from its checkpoints (see `resume_dag_with_retry`),
/// without retries.
pub fn resume_dag<E: CommandExecutor, P: StepPolicy, S: CheckpointStore>(
    dag: &DagPipeline,
    checkpoint_store: &mut S,
    initial_input: serde_json::Value,
    registry: &CommandRegistry,
    executors: &Vec<(String, E)>,
    policy: &P,
    ctx: &mut ExecutionContext,
) -> (r: Result<RunResult, PipelineError>)
    ensures
        dag.steps@.len() == 0 ==> (r matches Err(e) && is_empty_dag_error(e)),
        r matches Ok(res) ==> run_finished(*dag, initial_input, registry.manifests(), executors@, None, *policy, false,
            restored_states(old(checkpoint_store).stored(dag.pipeline_id@)), restored_outputs(
            old(checkpoint_store).stored(dag.pipeline_id@),
        ), *final(ctx), res),
        r matches Err(e) ==> run_failed(*dag, registry.manifests(), executors@, None, *policy, false, true, false, e),
{
    let mut backoff = NoBackoff;
    resume_dag_with_retry(dag, checkpoint_store, initial_input, registry, executors, policy, ctx, None, &mut backoff)
}

/// Resumes a DAG pipeline: the steps with checkpoints take their recorded
/// state and output and are not run again, the resources used are those of
/// the last checkpoint, and the other steps run as in a fresh run, each
/// checkpointed. Failing to load the checkpoints fails the run as a whole.
#[allow(clippy::too_many_arguments)]
pub fn resume_dag_with_retry<E: CommandExecutor, P: StepPolicy, S: CheckpointStore, B: Backoff>(
    dag: &DagPipeline,
    checkpoint_store: &mut S,
    initial_input: serde_json::Value,
    registry: &CommandRegistry,
    executors: &Vec<(String, E)>,
    policy: &P,
    ctx: &mut ExecutionContext,
    retry_policy: Option<RetryPolicy>,
    backoff: &mut B,
) -> (r: Result<RunResult, PipelineError>)
    requires
        retry_policy matches Some(rp) ==> rp.max_attempts >= 1,
    ensures
        dag.steps@.len() == 0 ==> (r matches Err(e) && is_empty_dag_error(e)),
        r matches Ok(res) ==> run_finished(*dag, initial_input, registry.manifests(), executors@, retry_policy, *policy, false,
            restored_states(old(checkpoint_store).stored(dag.pipeline_id@)), restored_outputs(
            old(checkpoint_store).stored(dag.pipeline_id@),
        ), *final(ctx), res),
        r matches Err(e) ==> run_failed(*dag, registry.manifests(), executors@, retry_policy, *policy, false, true, false, e),
{
    if dag.steps.len() == 0 {
        return Err(run_level_failure());
    }
    let ghost payload = initial_input;
    let checkpoints = match checkpoint_store.load_all(dag.pipeline_id.as_str()) {
        Ok(c) => c,
        Err(_) => {
            return Err(run_level_failure());
        },
    };
    match checkpoint_store.load_latest(dag.pipeline_id.as_str()) {
        Ok(Some(latest)) => {
            ctx.resource_used = latest.resource_used;
        },
        Ok(None) => {},
        Err(_) => {
            return Err(run_level_failure());
        },
    }
    let (mut step_outputs, mut step_states) = restore_checkpoints(&checkpoints);
    let ghost rec_states = step_states@;
    let ghost rec_outs0 = step_outputs@;
    let mut branch_selections: KeyedMap<String> = KeyedMap::new();
    let mut gate = InMemoryApprovalGate::new();
    let mut sm = PipelineStateMachine::new(dag.pipeline_id.clone());
    let core = execute_dag_core(
        dag,
        initial_input,
        registry,
        executors,
        policy,
        ctx,
        checkpoint_store,
        true,
        retry_policy,
        backoff,
        &mut step_outputs,
        &mut step_states,
        &mut branch_selections,
        &mut gate,
        false,
        &mut sm,
        false,
    );
    if let Err(e) = core {
        return Err(e);
    }
    let output = collect_output(dag, &step_outputs);
    let audit = clone_audit(&ctx.audit);
    let res = RunResult { output, audit };
    proof {
        let views = cp_views(checkpoints@);
        let init = choose|init: FrameEnvelope|
            #[trigger] run_start(init, *dag, payload) && (well_ordered(dag.steps@) ==> all_routed(
                dag.steps@,
                init,
                step_positions(dag.steps@),
                rec_states,
                step_states@,
                step_outputs@,
                branch_selections@,
                registry.manifests(),
                executors@,
                retry_policy,
                *policy,
                false,
            ));
        assert forall|id: Seq<char>| #[trigger] rec_states.contains_key(id) && restored_outputs(views).contains_key(id) implies step_outputs@.contains_key(id)
            && step_outputs@[id]@ == restored_outputs(views)[id] by {
            assert(rec_outs0.contains_key(id));
        }
        assert(run_reached(*dag, payload, registry.manifests(), executors@, retry_policy, *policy, false, restored_states(views),
            restored_outputs(views), step_states@, step_outputs@, branch_selections@, init));
    }
    Ok(res)
}

/// Runs a DAG pipeline under an approval gate, checkpointing each step and
/// tracking the lifecycle. When the run fails and the lifecycle ended failed
/// or cancelled, the completed steps are compensated and the lifecycle is
/// told so.
#[allow(clippy::too_many_arguments)]
pub fn run_dag_with_approval<E: CommandExecutor, P: StepPolicy, G: ApprovalGate, S: CheckpointStore, C: CompensatingExecutor>(
    dag: &DagPipeline,
    initial_input: serde_json::Value,
    registry: &CommandRegistry,
    executors: &Vec<(String, E)>,
    policy: &P,
    approval_gate: &mut G,
    checkpoint_store: &mut S,
    compensators: &Vec<(String, C)>,
    ctx: &mut ExecutionContext,
    state_machine: &mut PipelineStateMachine,
) -> (r: Result<RunResult, PipelineError>)
    requires
        old(approval_gate).ready(),
    ensures
        final(approval_gate).ready(),
        dag.steps@.len() == 0 ==> (r matches Err(e) && is_empty_dag_error(e)),
        r matches Ok(res) ==> run_finished(*dag, initial_input, registry.manifests(), executors@, None, *policy, true,
            Map::empty(), Map::empty(), *final(ctx), res),
        r matches Ok(_) ==> final(state_machine).state == PipelineState::Completed,
        r matches Err(e) ==> run_failed(*dag, registry.manifests(), executors@, None, *policy, true, true, true, e),
{
    if dag.steps.len() == 0 {
        return Err(run_level_failure());
    }
    let ghost payload = initial_input;
    let mut step_outputs: KeyedMap<Vec<FrameEnvelope>> = KeyedMap::new();
    let mut step_states: KeyedMap<StepState> = KeyedMap::new();
    let mut branch_selections: KeyedMap<String> = KeyedMap::new();
    let mut backoff = NoBackoff;
    let result = execute_dag_core(
        dag,
        initial_input,
        registry,
        executors,
        policy,
        ctx,
        checkpoint_store,
        true,
        None,
        &mut backoff,
        &mut step_outputs,
        &mut step_states,
        &mut branch_selections,
        approval_gate,
        true,
        state_machine,
        true,
    );
    if result.is_err() {
        if state_machine.state == PipelineState::Failed || state_machine.state == PipelineState::Cancelled {
            let _ = rollback_dag(dag, checkpoint_store, registry, compensators, ctx);
            let _ = state_machine.transition(StateEvent::CompensateCompleted);
        }
    }
    let output = collect_output(dag, &step_outputs);
    match result {
        Ok(()) => {
            let audit = clone_audit(&ctx.audit);
            let res = RunResult { output, audit };
            proof {
                let init = choose|init: FrameEnvelope|
                    #[trigger] run_start(init, *dag, payload) && (well_ordered(dag.steps@) ==> all_routed(
                        dag.steps@,
                        init,
                        step_positions(dag.steps@),
                        Map::empty(),
                        step_states@,
                        step_outputs@,
                        branch_selections@,
                        registry.manifests(),
                        executors@,
                        None,
                        *policy,
                        true,
                    ));
                assert(run_reached(*dag, payload, registry.manifests(), executors@, None, *policy, true, Map::empty(),
                    Map::empty(), step_states@, step_outputs@, branch_selections@, init));
            }
            Ok(res)
        },
        Err(e) => Err(e),
    }
}

/// With no route, a branch entry whose object predicate the first frame's
/// object payload holds member for member is a hit: the step selects the
/// target of an entry at or before it whose predicate the payload meets
/// (equal to it, or holding each of its members).
pub proof fn law_branch_member_predicate_hits(
    step: DagStep,
    frames: Seq<FrameEnvelope>,
    b: serde_json::Value,
    arr: Seq<serde_json::Value>,
    i: int,
    p: serde_json::Value,
    es: Seq<(Seq<char>, serde_json::Value)>,
)
    requires
        json_member(step.composed.args, "branches"@) == Some(b),
        json_elements(b) == Some(arr),
        text_member(step.composed.args, "route"@) is None,
        frames.len() > 0,
        0 <= i < arr.len(),
        text_member(arr[i], "target"@) is Some,
        json_member(arr[i], "predicate"@) == Some(p),
        json_entries(p) == Some(es),
        json_entries(frames[0].payload) is Some,
        forall|m: int|
            0 <= m < es.len() ==> (json_member(frames[0].payload, (#[trigger] es[m]).0) matches Some(w) && json_equal(w, es[m].1)),
    ensures
        exists|k: int|
            0 <= k <= i && branch_target(step, frames) == text_member(#[trigger] arr[k], "target"@) && text_member(arr[k], "target"@)
                is Some && (json_member(arr[k], "predicate"@) matches Some(q) && (json_equal(frames[0].payload, q) || (json_entries(
                q,
            ) matches Some(qs) && json_entries(frames[0].payload) is Some && forall|m: int|
                0 <= m < qs.len() ==> (json_member(frames[0].payload, (#[trigger] qs[m]).0) matches Some(w) && json_equal(
                    w,
                    qs[m].1,
                ))))),
{
    assert(object_members_match(frames[0].payload, p));
    assert(predicate_hit(arr[i], frames[0].payload));
    lemma_first_hit_before(arr, |x: serde_json::Value| predicate_hit(x, frames[0].payload), i, 0);
    let k = first_hit(arr, |x: serde_json::Value| predicate_hit(x, frames[0].payload))->0;
    assert(branch_target(step, frames) == text_member(arr[k], "target"@));
    assert(predicate_hit(arr[k], frames[0].payload));
}

/// The first entry that `hit` picks comes at or before any entry it picks.
proof fn lemma_first_hit_before(arr: Seq<serde_json::Value>, hit: spec_fn(serde_json::Value) -> bool, i: int, start: int)
    requires
        0 <= start <= i < arr.len(),
        hit(arr[i]),
        forall|j: int| 0 <= j < start ==> !hit(#[trigger] arr[j]),
    ensures
        first_hit(arr, hit) matches Some(k) && 0 <= k <= i && hit(arr[k]),
    decreases i - start,
{
    if hit(arr[start]) {
        assert(first_hit(arr, hit) == Some(start));
    } else {
        lemma_first_hit_before(arr, hit, i, start + 1);
    }
}

/// A branch step whose route names an entry selects the target of an entry
/// at or before it that the route names.
pub proof fn law_branch_route_selects_named(
    step: DagStep,
    frames: Seq<FrameEnvelope>,
    b: serde_json::Value,
    arr: Seq<serde_json::Value>,
    i: int,
    route: Seq<char>,
)
    requires
        json_member(step.composed.args, "branches"@) == Some(b),
        json_elements(b) == Some(arr),
        text_member(step.composed.args, "route"@) == Some(route),
        0 <= i < arr.len(),
        text_member(arr[i], "target"@) is Some,
        text_member(arr[i], "name"@) == Some(route),
    ensures
        exists|k: int|
            0 <= k <= i && branch_target(step, frames) == text_member(#[trigger] arr[k], "target"@) && text_member(arr[k], "target"@)
                is Some && text_member(arr[k], "name"@) == Some(route),
{
    assert(route_hit(arr[i], route));
    lemma_first_hit_before(arr, |x: serde_json::Value| route_hit(x, route), i, 0);
    let k = first_hit(arr, |x: serde_json::Value| route_hit(x, route))->0;
    assert(branch_target(step, frames) == text_member(arr[k], "target"@));
    assert(route_hit(arr[k], route));
}

} // verus!
