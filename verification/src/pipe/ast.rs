//! Typed pipeline AST: composition, type checking, cardinality, cycle detection.

use vstd::prelude::*;

use crate::json::clone_json;
use crate::pipe::frame::{frame_type_name, Cardinality, FrameType, TypedFrame};
use crate::pipe::registry::{lookup_manifest, CommandRegistry, PipeCommandManifest, SideEffectLevel};
use crate::text::str_eq;

verus! {

#[derive(Debug, PartialEq, Eq)]
pub enum InputBinding {
    PreviousStep,
    Constant(serde_json::Value),
    StepOutput(String),
}

impl Clone for InputBinding {
    fn clone(&self) -> (r: Self)
        ensures
            r == *self,
    {
        match self {
            InputBinding::PreviousStep => InputBinding::PreviousStep,
            InputBinding::Constant(v) => InputBinding::Constant(clone_json(v)),
            InputBinding::StepOutput(s) => InputBinding::StepOutput(s.clone()),
        }
    }
}

#[derive(Debug, PartialEq, Eq)]
pub enum FailurePolicy {
    FailFast,
    Skip,
    Default(serde_json::Value),
}

impl Clone for FailurePolicy {
    fn clone(&self) -> (r: Self)
        ensures
            r == *self,
    {
        match self {
            FailurePolicy::FailFast => FailurePolicy::FailFast,
            FailurePolicy::Skip => FailurePolicy::Skip,
            FailurePolicy::Default(v) => FailurePolicy::Default(clone_json(v)),
        }
    }
}

#[derive(Debug, PartialEq, Eq)]
pub struct PipelineStep {
    pub step_id: String,
    pub command_id: String,
    pub input_binding: InputBinding,
    pub failure_policy: FailurePolicy,
    pub args: serde_json::Value,
}

#[derive(Debug, PartialEq, Eq)]
pub struct PipelineAst {
    pub pipeline_id: String,
    pub steps: Vec<PipelineStep>,
}

#[derive(Debug, PartialEq, Eq)]
pub struct ComposedStep {
    pub step_id: String,
    pub command_id: String,
    pub input_type: TypedFrame,
    pub output_type: TypedFrame,
    pub input_binding: InputBinding,
    pub failure_policy: FailurePolicy,
    pub side_effect_level: SideEffectLevel,
    pub args: serde_json::Value,
}

impl Clone for ComposedStep {
    fn clone(&self) -> (r: Self)
        ensures
            r == *self,
    {
        ComposedStep {
            step_id: self.step_id.clone(),
            command_id: self.command_id.clone(),
            input_type: self.input_type,
            output_type: self.output_type,
            input_binding: self.input_binding.clone(),
            failure_policy: self.failure_policy.clone(),
            side_effect_level: self.side_effect_level,
            args: clone_json(&self.args),
        }
    }
}

#[derive(Debug, PartialEq, Eq)]
pub struct ComposedPipeline {
    pub pipeline_id: String,
    pub steps: Vec<ComposedStep>,
    pub input_type: TypedFrame,
    pub output_type: TypedFrame,
}

/// Merge strategy for Join nodes in a DAG pipeline.
#[derive(Debug, Clone, Copy, PartialEq, Eq, Structural)]
pub enum DagMergeStrategy {
    Concat,
    Interleave,
    FirstNonEmpty,
}

/// Kind of a node in a DAG pipeline.
#[derive(Debug, Clone, Copy, PartialEq, Eq, Structural)]
pub enum DagNodeKind {
    Command,
    Tee,
    Branch,
    Join { strategy: DagMergeStrategy },
    Exit,
}

/// A step in a DAG pipeline with topology metadata.
#[derive(Debug, PartialEq, Eq)]
pub struct DagStep {
    pub composed: ComposedStep,
    pub kind: DagNodeKind,
    pub predecessors: Vec<String>,
    pub successors: Vec<String>,
}

/// A DAG pipeline with topologically sorted steps.
#[derive(Debug, PartialEq, Eq)]
pub struct DagPipeline {
    pub pipeline_id: String,
    pub steps: Vec<DagStep>,
    pub input_type: TypedFrame,
    pub output_type: TypedFrame,
}

#[derive(Debug, PartialEq, Eq)]
pub enum ComposeError {
    TypeMismatch { step_id: String, expected: TypedFrame, found: TypedFrame },
    CardinalityConflict { step_id: String, expected: Cardinality, found: Cardinality },
    CycleDetected,
    CommandNotFound(String),
    EmptyPipeline,
    StepNotFound(String),
}

// ---------------------------------------------------------------------------
// Cycle detection over `StepOutput` references.
// ---------------------------------------------------------------------------

/// Step `m` reads the output of step `j` (`j` carries the id that `m` names).
pub open spec fn edge(steps: Seq<PipelineStep>, m: int, j: int) -> bool {
    &&& 0 <= m < steps.len()
    &&& 0 <= j < steps.len()
    &&& steps[m].input_binding matches InputBinding::StepOutput(t) && t@ == steps[j].step_id@
}

/// The steps reached from step `i` by exactly `k` references.
pub open spec fn reach(steps: Seq<PipelineStep>, i: int, k: nat) -> Set<int>
    decreases k,
{
    if k == 0 {
        set![i]
    } else {
        Set::new(|j: int| exists|m: int| reach(steps, i, (k - 1) as nat).contains(m) && #[trigger] edge(steps, m, j))
    }
}

/// Some step reaches itself by following at most as many references as there are steps.
pub open spec fn has_cycle(steps: Seq<PipelineStep>) -> bool {
    exists|i: int, k: int| 0 <= i < steps.len() && 1 <= k <= steps.len() && #[trigger] reach(steps, i, k as nat).contains(i)
}

/// Step `p` refers to a step id that no step carries.
pub open spec fn dangling(steps: Seq<PipelineStep>, p: int) -> bool {
    steps[p].input_binding matches InputBinding::StepOutput(t) && (forall|j: int| 0 <= j < steps.len() ==> (#[trigger] steps[j]).step_id@ != t@)
}

pub open spec fn target_of(step: PipelineStep) -> String {
    match step.input_binding {
        InputBinding::StepOutput(t) => t,
        _ => arbitrary(),
    }
}

/// What cycle detection reports: the first dangling reference, else whether there is a cycle.
pub open spec fn detect_cycle_ok(steps: Seq<PipelineStep>, r: Result<(), ComposeError>) -> bool {
    match r {
        Ok(()) => (forall|p: int| 0 <= p < steps.len() ==> !#[trigger] dangling(steps, p)) && !has_cycle(steps),
        Err(ComposeError::StepNotFound(t)) => exists|p: int| 0 <= p < steps.len() && #[trigger] dangling(steps, p)
            && (forall|q: int| 0 <= q < p ==> !#[trigger] dangling(steps, q)) && t == target_of(steps[p]),
        Err(ComposeError::CycleDetected) => (forall|p: int| 0 <= p < steps.len() ==> !#[trigger] dangling(steps, p)) && has_cycle(steps),
        _ => false,
    }
}

/// Adjacency of the reference graph.
fn reference_matrix(steps: &Vec<PipelineStep>) -> (adj: Vec<Vec<bool>>)
    ensures
        adj@.len() == steps@.len(),
        forall|m: int| 0 <= m < steps@.len() ==> (#[trigger] adj@[m])@.len() == steps@.len(),
        forall|m: int, j: int| 0 <= m < steps@.len() && 0 <= j < steps@.len() ==> (adj@[m]@[j] <==> edge(steps@, m, j)),
{
    let n = steps.len();
    let mut adj: Vec<Vec<bool>> = Vec::new();
    let mut m: usize = 0;
    while m < n
        invariant
            n == steps@.len(),
            m <= n,
            adj@.len() == m,
            forall|a: int| 0 <= a < m ==> (#[trigger] adj@[a])@.len() == n,
            forall|a: int, j: int| 0 <= a < m && 0 <= j < n ==> (adj@[a]@[j] <==> edge(steps@, a, j)),
        decreases n - m,
    {
        let mut row: Vec<bool> = Vec::new();
        let mut j: usize = 0;
        while j < n
            invariant
                n == steps@.len(),
                m < n,
                j <= n,
                row@.len() == j,
                forall|b: int| 0 <= b < j ==> (row@[b] <==> edge(steps@, m as int, b)),
            decreases n - j,
        {
            let e = match &steps[m].input_binding {
                InputBinding::StepOutput(t) => str_eq(t.as_str(), steps[j].step_id.as_str()),
                _ => false,
            };
            row.push(e);
            j = j + 1;
        }
        adj.push(row);
        m = m + 1;
    }
    adj
}

/// Whether some step reaches itself through references.
fn reference_cycle(steps: &Vec<PipelineStep>) -> (r: bool)
    ensures
        r == has_cycle(steps@),
{
    let n = steps.len();
    let adj = reference_matrix(steps);
    let mut i: usize = 0;
    while i < n
        invariant
            n == steps@.len(),
            i <= n,
            adj@.len() == n,
            forall|m: int| 0 <= m < n ==> (#[trigger] adj@[m])@.len() == n,
            forall|m: int, j: int| 0 <= m < n && 0 <= j < n ==> (adj@[m]@[j] <==> edge(steps@, m, j)),
            forall|a: int, k: int| 0 <= a < i && 1 <= k <= n ==> !#[trigger] reach(steps@, a, k as nat).contains(a),
        decreases n - i,
    {
        let mut cur: Vec<bool> = Vec::new();
        let mut j: usize = 0;
        while j < n
            invariant
                j <= n,
                i < n,
                cur@.len() == j,
                forall|b: int| 0 <= b < j ==> (cur@[b] <==> b == i),
            decreases n - j,
        {
            cur.push(j == i);
            j = j + 1;
        }
        assert forall|b: int| 0 <= b < n implies (cur@[b] <==> reach(steps@, i as int, 0).contains(b)) by {}
        let mut k: usize = 1;
        while k - 1 < n
            invariant
                n == steps@.len(),
                i < n,
                1 <= k <= n,
                cur@.len() == n,
                adj@.len() == n,
                forall|m: int| 0 <= m < n ==> (#[trigger] adj@[m])@.len() == n,
                forall|m: int, b: int| 0 <= m < n && 0 <= b < n ==> (adj@[m]@[b] <==> edge(steps@, m, b)),
                forall|b: int| 0 <= b < n ==> (cur@[b] <==> reach(steps@, i as int, (k - 1) as nat).contains(b)),
                forall|kk: int| 1 <= kk < k ==> !#[trigger] reach(steps@, i as int, kk as nat).contains(i as int),
            ensures
                forall|kk: int| 1 <= kk <= n ==> !#[trigger] reach(steps@, i as int, kk as nat).contains(i as int),
            decreases n - k,
        {
            let mut next: Vec<bool> = Vec::new();
            let mut b: usize = 0;
            while b < n
                invariant
                    n == steps@.len(),
                    i < n,
                    1 <= k <= n,
                    b <= n,
                    next@.len() == b,
                    cur@.len() == n,
                    adj@.len() == n,
                    forall|m: int| 0 <= m < n ==> (#[trigger] adj@[m])@.len() == n,
                    forall|m: int, c: int| 0 <= m < n && 0 <= c < n ==> (adj@[m]@[c] <==> edge(steps@, m, c)),
                    forall|c: int| 0 <= c < n ==> (cur@[c] <==> reach(steps@, i as int, (k - 1) as nat).contains(c)),
                    forall|c: int| 0 <= c < b ==> (next@[c] <==> reach(steps@, i as int, k as nat).contains(c)),
                decreases n - b,
            {
                let mut found = false;
                let mut m: usize = 0;
                while m < n
                    invariant
                        n == steps@.len(),
                        i < n,
                        b < n,
                        m <= n,
                        cur@.len() == n,
                        adj@.len() == n,
                        forall|mm: int| 0 <= mm < n ==> (#[trigger] adj@[mm])@.len() == n,
                        forall|mm: int, c: int| 0 <= mm < n && 0 <= c < n ==> (adj@[mm]@[c] <==> edge(steps@, mm, c)),
                        forall|c: int| 0 <= c < n ==> (cur@[c] <==> reach(steps@, i as int, (k - 1) as nat).contains(c)),
                        found <==> exists|mm: int| 0 <= mm < m && cur@[mm] && #[trigger] edge(steps@, mm, b as int),
                    decreases n - m,
                {
                    let c = cur[m];
                    let e = adj[m][b];
                    if c && e {
                        found = true;
                        assert(cur@[m as int] && edge(steps@, m as int, b as int));
                    } else {
                        assert(!(cur@[m as int] && edge(steps@, m as int, b as int)));
                    }
                    m = m + 1;
                }
                proof {
                    if reach(steps@, i as int, k as nat).contains(b as int) {
                        let mm = choose|mm: int| reach(steps@, i as int, (k - 1) as nat).contains(mm) && #[trigger] edge(steps@, mm, b as int);
                        assert(cur@[mm]);
                    }
                    if found {
                        let mm = choose|mm: int| 0 <= mm < n && cur@[mm] && #[trigger] edge(steps@, mm, b as int);
                        assert(reach(steps@, i as int, (k - 1) as nat).contains(mm));
                        assert(reach(steps@, i as int, k as nat).contains(b as int));
                    }
                }
                next.push(found);
                b = b + 1;
            }
            if next[i] {
                assert(has_cycle(steps@)) by {
                    let ghost kk: int = k as int;
                    assert(reach(steps@, i as int, kk as nat).contains(i as int));
                }
                return true;
            }
            if k == n {
                break;
            }
            cur = next;
            k = k + 1;
        }
        i = i + 1;
    }
    assert(!has_cycle(steps@)) by {
        assert forall|a: int, k: int| 0 <= a < steps@.len() && 1 <= k <= steps@.len() implies !#[trigger] reach(steps@, a, k as nat).contains(a) by {}
    }
    false
}

/// Rejects a reference to a missing step (the first one), then a reference cycle.
fn detect_cycle(ast: &PipelineAst) -> (r: Result<(), ComposeError>)
    ensures
        detect_cycle_ok(ast.steps@, r),
{
    let steps = &ast.steps;
    let n = steps.len();
    let mut p: usize = 0;
    while p < n
        invariant
            n == steps@.len(),
            steps@ == ast.steps@,
            p <= n,
            forall|q: int| 0 <= q < p ==> !#[trigger] dangling(steps@, q),
        decreases n - p,
    {
        if let InputBinding::StepOutput(t) = &steps[p].input_binding {
            let mut known = false;
            let mut j: usize = 0;
            while j < n
                invariant
                    n == steps@.len(),
                    j <= n,
                    known <==> exists|jj: int| 0 <= jj < j && (#[trigger] steps@[jj]).step_id@ == t@,
                decreases n - j,
            {
                if str_eq(steps[j].step_id.as_str(), t.as_str()) {
                    known = true;
                }
                j = j + 1;
            }
            if !known {
                assert(dangling(steps@, p as int));
                assert(target_of(steps@[p as int]) == *t);
                let missing = t.clone();
                let res: Result<(), ComposeError> = Err(ComposeError::StepNotFound(missing));
                assert(detect_cycle_ok(ast.steps@, res));
                return res;
            }
        }
        p = p + 1;
    }
    if reference_cycle(steps) {
        Err(ComposeError::CycleDetected)
    } else {
        Ok(())
    }
}


// ---------------------------------------------------------------------------
// Composition.
// ---------------------------------------------------------------------------

/// The first composed step carrying id `t`.
pub open spec fn find_composed(cs: Seq<ComposedStep>, t: Seq<char>) -> Option<int>
    decreases cs.len(),
{
    if cs.len() == 0 {
        None
    } else {
        match find_composed(cs.drop_last(), t) {
            Some(k) => Some(k),
            None => if cs.last().step_id@ == t { Some(cs.len() - 1) } else { None },
        }
    }
}

/// The frame a step actually receives, given the steps composed before it.
pub open spec fn actual_input(step: PipelineStep, m: PipeCommandManifest, cs: Seq<ComposedStep>) -> Result<TypedFrame, ComposeError> {
    match step.input_binding {
        InputBinding::PreviousStep => if cs.len() == 0 {
            Err(ComposeError::EmptyPipeline)
        } else {
            Ok(cs.last().output_type)
        },
        InputBinding::Constant(_) => Ok(m.input_frame),
        InputBinding::StepOutput(t) => match find_composed(cs, t@) {
            Some(k) => Ok(cs[k].output_type),
            None => Err(ComposeError::StepNotFound(t)),
        },
    }
}

/// Composing one step after the steps `cs`.
pub open spec fn compose_one(step: PipelineStep, ms: Seq<PipeCommandManifest>, cs: Seq<ComposedStep>) -> Result<ComposedStep, ComposeError> {
    match lookup_manifest(ms, step.command_id@) {
        None => Err(ComposeError::CommandNotFound(step.command_id)),
        Some(m) => match actual_input(step, m, cs) {
            Err(e) => Err(e),
            Ok(actual) => if actual.0 != m.input_frame.0 {
                Err(ComposeError::TypeMismatch { step_id: step.step_id, expected: m.input_frame, found: actual })
            } else if actual.1 == Cardinality::Many && m.input_frame.1 == Cardinality::One {
                Err(ComposeError::CardinalityConflict { step_id: step.step_id, expected: Cardinality::One, found: Cardinality::Many })
            } else {
                Ok(ComposedStep {
                    step_id: step.step_id,
                    command_id: step.command_id,
                    input_type: m.input_frame,
                    output_type: m.output_frame,
                    input_binding: step.input_binding,
                    failure_policy: step.failure_policy,
                    side_effect_level: m.side_effect_level,
                    args: step.args,
                })
            },
        },
    }
}

/// Composing the first `n` steps, stopping at the first error.
pub open spec fn compose_prefix(steps: Seq<PipelineStep>, ms: Seq<PipeCommandManifest>, n: nat) -> Result<Seq<ComposedStep>, ComposeError>
    decreases n,
{
    if n == 0 {
        Ok(Seq::<ComposedStep>::empty())
    } else {
        match compose_prefix(steps, ms, (n - 1) as nat) {
            Err(e) => Err(e),
            Ok(cs) => match compose_one(steps[n - 1], ms, cs) {
                Err(e) => Err(e),
                Ok(c) => Ok(cs.push(c)),
            },
        }
    }
}

fn find_composed_exec(cs: &Vec<ComposedStep>, t: &str) -> (r: Option<usize>)
    ensures
        r matches Some(k) ==> find_composed(cs@, t@) == Some(k as int) && k < cs@.len(),
        r is None ==> find_composed(cs@, t@) is None,
{
    let mut i: usize = 0;
    while i < cs.len()
        invariant
            i <= cs.len(),
            find_composed(cs@.take(i as int), t@) is None,
        decreases cs.len() - i,
    {
        assert(cs@.take(i + 1).drop_last() =~= cs@.take(i as int));
        if str_eq(cs[i].step_id.as_str(), t) {
            assert(find_composed(cs@.take(i + 1), t@) == Some(i as int));
            proof { lemma_find_composed_prefix(cs@, t@, i as int + 1); }
            return Some(i);
        }
        i = i + 1;
    }
    assert(cs@.take(i as int) =~= cs@);
    None
}

/// Once composing a prefix fails, composing any longer prefix fails the same way.
proof fn lemma_compose_prefix_err(steps: Seq<PipelineStep>, ms: Seq<PipeCommandManifest>, k: nat, n: nat)
    requires
        k <= n,
        compose_prefix(steps, ms, k) is Err,
    ensures
        compose_prefix(steps, ms, n) == compose_prefix(steps, ms, k),
    decreases n - k,
{
    if k < n {
        lemma_compose_prefix_err(steps, ms, k, (n - 1) as nat);
    }
}

/// A match in a prefix stays the first match of every longer prefix.
proof fn lemma_find_composed_prefix(cs: Seq<ComposedStep>, t: Seq<char>, n: int)
    requires
        0 <= n <= cs.len(),
        find_composed(cs.take(n), t) is Some,
    ensures
        find_composed(cs, t) == find_composed(cs.take(n), t),
    decreases cs.len() - n,
{
    if n < cs.len() {
        assert(cs.take(n + 1).drop_last() =~= cs.take(n));
        lemma_find_composed_prefix(cs, t, n + 1);
    } else {
        assert(cs.take(n) =~= cs);
    }
}

/// What composing `ast` with the registered manifests `ms` answers.
pub open spec fn compose_outcome(ast: PipelineAst, ms: Seq<PipeCommandManifest>, r: Result<ComposedPipeline, ComposeError>) -> bool {
    &&& ast.steps@.len() == 0 ==> r == Err::<ComposedPipeline, ComposeError>(ComposeError::EmptyPipeline)
    &&& ast.steps@.len() > 0 ==> {
        let d: Result<(), ComposeError> = match r {
            Err(ComposeError::StepNotFound(t)) if !(forall|p: int| 0 <= p < ast.steps@.len() ==> !#[trigger] dangling(ast.steps@, p)) => Err(ComposeError::StepNotFound(t)),
            Err(ComposeError::CycleDetected) => Err(ComposeError::CycleDetected),
            _ => Ok(()),
        };
        &&& detect_cycle_ok(ast.steps@, d)
        &&& d is Ok ==> match compose_prefix(ast.steps@, ms, ast.steps@.len()) {
            Err(e) => r == Err::<ComposedPipeline, ComposeError>(e),
            Ok(cs) => r matches Ok(p) && p.steps@ == cs && p.pipeline_id == ast.pipeline_id
                && p.input_type == cs[0].input_type && p.output_type == cs.last().output_type,
        }
    }
}

/// Composes a pipeline AST into a validated `ComposedPipeline`: rejects an
/// empty pipeline, a reference to a missing step, a reference cycle, then
/// composes the steps in order, checking each step's input frame.
pub fn compose(ast: &PipelineAst, registry: &CommandRegistry) -> (r: Result<ComposedPipeline, ComposeError>)
    ensures
        compose_outcome(*ast, registry.manifests(), r),
{
    if ast.steps.len() == 0 {
        return Err(ComposeError::EmptyPipeline);
    }
    match detect_cycle(ast) {
        Ok(()) => {},
        Err(e) => {
            return Err(e);
        },
    }
    let ghost ms = registry.manifests();
    let mut composed: Vec<ComposedStep> = Vec::new();
    let mut i: usize = 0;
    while i < ast.steps.len()
        invariant
            i <= ast.steps@.len(),
            ms == registry.manifests(),
            ast.steps@.len() > 0,
            detect_cycle_ok(ast.steps@, Ok::<(), ComposeError>(())),
            compose_prefix(ast.steps@, ms, i as nat) == Ok::<Seq<ComposedStep>, ComposeError>(composed@),
        decreases ast.steps.len() - i,
    {
        let step = &ast.steps[i];
        let manifest = match registry.inspect(step.command_id.as_str()) {
            Ok(m) => m,
            Err(_) => {
                proof { lemma_compose_prefix_err(ast.steps@, ms, (i + 1) as nat, ast.steps@.len()); }
                return Err(ComposeError::CommandNotFound(step.command_id.clone()));
            },
        };
        let expected_input = manifest.input_frame;
        let actual_input: TypedFrame = match &step.input_binding {
            InputBinding::PreviousStep => {
                if composed.len() == 0 {
                    proof { lemma_compose_prefix_err(ast.steps@, ms, (i + 1) as nat, ast.steps@.len()); }
                    return Err(ComposeError::EmptyPipeline);
                }
                composed[composed.len() - 1].output_type
            },
            InputBinding::Constant(_) => expected_input,
            InputBinding::StepOutput(t) => match find_composed_exec(&composed, t.as_str()) {
                Some(k) => composed[k].output_type,
                None => {
                    proof { lemma_compose_prefix_err(ast.steps@, ms, (i + 1) as nat, ast.steps@.len()); }
                    return Err(ComposeError::StepNotFound(t.clone()));
                },
            },
        };
        if actual_input.0 != expected_input.0 {
            proof { lemma_compose_prefix_err(ast.steps@, ms, (i + 1) as nat, ast.steps@.len()); }
            return Err(ComposeError::TypeMismatch {
                step_id: step.step_id.clone(),
                expected: expected_input,
                found: actual_input,
            });
        }
        if actual_input.1 == Cardinality::Many && expected_input.1 == Cardinality::One {
            proof { lemma_compose_prefix_err(ast.steps@, ms, (i + 1) as nat, ast.steps@.len()); }
            return Err(ComposeError::CardinalityConflict {
                step_id: step.step_id.clone(),
                expected: Cardinality::One,
                found: Cardinality::Many,
            });
        }
        let c = ComposedStep {
            step_id: step.step_id.clone(),
            command_id: step.command_id.clone(),
            input_type: expected_input,
            output_type: manifest.output_frame,
            input_binding: step.input_binding.clone(),
            failure_policy: step.failure_policy.clone(),
            side_effect_level: manifest.side_effect_level,
            args: clone_json(&step.args),
        };
        composed.push(c);
        i = i + 1;
    }
    let input_type = composed[0].input_type;
    let output_type = composed[composed.len() - 1].output_type;
    Ok(ComposedPipeline {
        pipeline_id: ast.pipeline_id.clone(),
        steps: composed,
        input_type,
        output_type,
    })
}


/// The steps of a composed pipeline carry the command ids of the AST's steps.
pub proof fn lemma_compose_ok_ids(ast: PipelineAst, ms: Seq<PipeCommandManifest>, p: ComposedPipeline)
    requires
        compose_outcome(ast, ms, Ok(p)),
    ensures
        p.steps@.len() == ast.steps@.len(),
        forall|j: int| 0 <= j < p.steps@.len() ==> (#[trigger] p.steps@[j]).command_id == ast.steps@[j].command_id,
{
    if ast.steps@.len() > 0 {
        lemma_compose_prefix_ids(ast.steps@, ms, ast.steps@.len());
    }
}

proof fn lemma_compose_prefix_ids(steps: Seq<PipelineStep>, ms: Seq<PipeCommandManifest>, n: nat)
    requires
        n <= steps.len(),
    ensures
        compose_prefix(steps, ms, n) matches Ok(cs) ==> cs.len() == n && forall|j: int| 0 <= j < n ==> (#[trigger] cs[j]).command_id
            == steps[j].command_id,
    decreases n,
{
    if n > 0 {
        lemma_compose_prefix_ids(steps, ms, (n - 1) as nat);
    }
}


pub open spec fn cardinality_name(c: Cardinality) -> Seq<char> {
    if c == Cardinality::One { "One"@ } else { "Many"@ }
}

/// `{:?}` of a typed frame: `(FrameType, Cardinality)`.
pub open spec fn typed_frame_debug(t: TypedFrame) -> Seq<char> {
    "("@ + frame_type_name(t.0) + ", "@ + cardinality_name(t.1) + ")"@
}

pub open spec fn compose_error_text(e: ComposeError) -> Seq<char> {
    match e {
        ComposeError::TypeMismatch { step_id, expected, found } => "type mismatch at step "@ + step_id@ + ": expected "@
            + typed_frame_debug(expected) + ", found "@ + typed_frame_debug(found),
        ComposeError::CardinalityConflict { step_id, expected, found } => "cardinality conflict at step "@ + step_id@
            + ": expected "@ + cardinality_name(expected) + ", found "@ + cardinality_name(found),
        ComposeError::CycleDetected => "cycle detected in pipeline"@,
        ComposeError::CommandNotFound(id) => "command not found: "@ + id@,
        ComposeError::EmptyPipeline => "pipeline has no steps"@,
        ComposeError::StepNotFound(id) => "step not found: "@ + id@,
    }
}

fn typed_frame_text(t: TypedFrame) -> (r: String)
    ensures
        r@ == typed_frame_debug(t),
{
    let head = crate::text::concat3("(", t.0.as_str(), ", ");
    crate::text::concat3(head.as_str(), t.1.as_str(), ")")
}

impl ComposeError {
    /// The error message.
    pub fn to_string(&self) -> (r: String)
        ensures
            r@ == compose_error_text(*self),
    {
        match self {
            ComposeError::TypeMismatch { step_id, expected, found } => {
                let head = crate::text::concat3("type mismatch at step ", step_id.as_str(), ": expected ");
                let mid = crate::text::concat3(head.as_str(), typed_frame_text(*expected).as_str(), ", found ");
                crate::text::concat2(mid.as_str(), typed_frame_text(*found).as_str())
            },
            ComposeError::CardinalityConflict { step_id, expected, found } => {
                let head = crate::text::concat3("cardinality conflict at step ", step_id.as_str(), ": expected ");
                let mid = crate::text::concat3(head.as_str(), expected.as_str(), ", found ");
                crate::text::concat2(mid.as_str(), found.as_str())
            },
            ComposeError::CycleDetected => crate::text::owned("cycle detected in pipeline"),
            ComposeError::CommandNotFound(id) => crate::text::concat2("command not found: ", id.as_str()),
            ComposeError::EmptyPipeline => crate::text::owned("pipeline has no steps"),
            ComposeError::StepNotFound(id) => crate::text::concat2("step not found: ", id.as_str()),
        }
    }
}

} // verus!
