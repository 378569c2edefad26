//! Pipeline compiler: type-check and validate a `PipelineGraph` against a `CommandRegistry`.

use vstd::prelude::*;

use crate::digraph::{is_stuck_core, is_topo_order, rows, topo_order};
use crate::json::{
    clone_json, entry_views, json_array, json_array_value, json_object, json_object_value, json_string, json_string_value,
};
use crate::pipe::ast::{
    compose, compose_outcome, ComposeError, ComposedPipeline, ComposedStep, DagMergeStrategy, DagNodeKind, DagPipeline,
    DagStep, FailurePolicy, InputBinding, PipelineAst,
};
use crate::pipe::frame::{Cardinality, FrameType};
use crate::pipeline::graph::{graph_matrix, node_key, predecessors, successors, BranchCondition, MergeStrategy, Node};
use crate::text::{owned, views};
use crate::pipe::frame::TypedFrame;
use crate::pipe::registry::{
    schema_hash_spec, CommandRegistry, PipeCommandManifest, ResourceQuota, SideEffectLevel,
};
use crate::pipeline::graph::{linear_outcome, validation, GraphError, PipelineGraph};
use crate::text::{concat2, concat3, str_eq};

verus! {

/// A compiled step with resolved type information.
#[derive(Debug, PartialEq, Eq)]
pub struct CompiledStep {
    pub step_id: String,
    pub command_id: String,
    pub input_type: TypedFrame,
    pub output_type: TypedFrame,
    pub side_effect_level: SideEffectLevel,
    pub resource_quota: Option<ResourceQuota>,
    pub schema_hash: String,
}

/// Result of compiling a pipeline graph.
#[derive(Debug, PartialEq, Eq)]
pub struct CompileResult {
    pub graph_id: String,
    /// Linear steps of the pipeline.
    pub linear_steps: Vec<CompiledStep>,
    /// Input frame type of the entire pipeline.
    pub input_type: TypedFrame,
    /// Output frame type of the entire pipeline.
    pub output_type: TypedFrame,
    /// Side-effect level of the most dangerous step.
    pub max_side_effect: SideEffectLevel,
    /// Schema hash of each command used, keyed by command id, in first-use order.
    pub command_schema_hashes: Vec<(String, String)>,
}

/// Errors that can occur during compilation.
#[derive(Debug, PartialEq, Eq)]
pub enum CompileError {
    Graph(GraphError),
    Compose(ComposeError),
    SchemaHashMismatch { command_id: String, expected: String, found: String },
    EmptyPipeline,
}

pub open spec fn compile_error_text(e: CompileError) -> Seq<char> {
    match e {
        CompileError::Graph(g) => "graph error: "@ + crate::pipeline::graph::graph_error_text(g),
        CompileError::Compose(c) => "compose error: "@ + crate::pipe::ast::compose_error_text(c),
        CompileError::SchemaHashMismatch { command_id, expected, found } => "schema hash mismatch for "@ + command_id@
            + ": expected "@ + expected@ + ", found "@ + found@,
        CompileError::EmptyPipeline => "pipeline has no steps"@,
    }
}

impl CompileError {
    /// The error message.
    pub fn to_string(&self) -> (r: String)
        ensures
            r@ == compile_error_text(*self),
    {
        match self {
            CompileError::Graph(e) => concat2("graph error: ", e.to_string().as_str()),
            CompileError::Compose(e) => concat2("compose error: ", e.to_string().as_str()),
            CompileError::SchemaHashMismatch { command_id, expected, found } => {
                let head = concat3("schema hash mismatch for ", command_id.as_str(), ": expected ");
                let mid = concat3(head.as_str(), expected.as_str(), ", found ");
                concat2(mid.as_str(), found.as_str())
            },
            CompileError::EmptyPipeline => crate::text::owned("pipeline has no steps"),
        }
    }
}

/// The rank of a side-effect level: no effect, then proposals, then side effects.
pub open spec fn level_rank(l: SideEffectLevel) -> int {
    match l {
        SideEffectLevel::NoEffect => 0,
        SideEffectLevel::ProposalOnly => 1,
        SideEffectLevel::SideEffect => 2,
    }
}

fn rank(l: SideEffectLevel) -> (r: u8)
    ensures
        r == level_rank(l),
{
    match l {
        SideEffectLevel::NoEffect => 0,
        SideEffectLevel::ProposalOnly => 1,
        SideEffectLevel::SideEffect => 2,
    }
}

/// The highest level among the steps (no effect for none).
pub open spec fn max_level(levels: Seq<SideEffectLevel>) -> SideEffectLevel
    decreases levels.len(),
{
    if levels.len() == 0 {
        SideEffectLevel::NoEffect
    } else {
        let rest = max_level(levels.drop_last());
        if level_rank(levels.last()) > level_rank(rest) {
            levels.last()
        } else {
            rest
        }
    }
}

/// What is wrong with a step's command: unknown, or its manifest's stored
/// schema hash is not the hash of its schemas.
pub open spec fn manifest_problem(ms: Seq<PipeCommandManifest>, command_id: Seq<char>, e: CompileError) -> bool {
    match crate::pipe::registry::lookup_manifest(ms, command_id) {
        None => e matches CompileError::Compose(ComposeError::CommandNotFound(c)) && c@ == command_id,
        Some(m) => e matches CompileError::SchemaHashMismatch { command_id: c, expected, found } && c == m.command_id
            && expected@ == schema_hash_spec(m.input_schema, m.output_schema) && found == m.schema_hash,
    }
}

pub open spec fn manifest_ok(ms: Seq<PipeCommandManifest>, command_id: Seq<char>) -> bool {
    crate::pipe::registry::lookup_manifest(ms, command_id) matches Some(m) && m.schema_hash@ == schema_hash_spec(
        m.input_schema,
        m.output_schema,
    )
}

/// The result of compiling: the composed steps with their manifests' quotas
/// and schema hashes.
pub open spec fn compiled_from(res: CompileResult, p: ComposedPipeline, ms: Seq<PipeCommandManifest>, graph_id: String) -> bool {
    &&& res.graph_id == graph_id
    &&& res.linear_steps@.len() == p.steps@.len()
    &&& forall|i: int| 0 <= i < p.steps@.len() ==> {
        let s = #[trigger] res.linear_steps@[i];
        let c = p.steps@[i];
        let m = crate::pipe::registry::lookup_manifest(ms, c.command_id@)->0;
        &&& s.step_id == c.step_id
        &&& s.command_id == c.command_id
        &&& s.input_type == c.input_type
        &&& s.output_type == c.output_type
        &&& s.side_effect_level == c.side_effect_level
        &&& s.resource_quota == m.resource_quota
        &&& s.schema_hash == m.schema_hash
    }
    &&& res.input_type == p.input_type
    &&& res.output_type == p.output_type
    &&& res.max_side_effect == max_level(p.steps@.map_values(|c: crate::pipe::ast::ComposedStep| c.side_effect_level))
    &&& forall|i: int, j: int| 0 <= i < j < res.command_schema_hashes@.len() ==> (#[trigger] res.command_schema_hashes@[i]).0@
        != (#[trigger] res.command_schema_hashes@[j]).0@
    &&& hash_table(res.command_schema_hashes@, p.steps@, ms)
}

/// No command occurs twice in the table.
pub open spec fn ht_distinct(t: Seq<(String, String)>) -> bool {
    forall|i: int, j: int| 0 <= i < j < t.len() ==> (#[trigger] t[i]).0@ != (#[trigger] t[j]).0@
}

/// Each entry holds its command's registered schema hash.
pub open spec fn ht_hashes(t: Seq<(String, String)>, ms: Seq<PipeCommandManifest>) -> bool {
    forall|i: int| 0 <= i < t.len() ==> (crate::pipe::registry::lookup_manifest(ms, (#[trigger] t[i]).0@) matches Some(m)
        && t[i].1 == m.schema_hash)
}

/// Some step runs the command.
pub open spec fn names_step(steps: Seq<crate::pipe::ast::ComposedStep>, c: Seq<char>) -> bool {
    exists|k: int| 0 <= k < steps.len() && (#[trigger] steps[k]).command_id@ == c
}

/// The table has an entry for the command.
pub open spec fn table_has(t: Seq<(String, String)>, c: Seq<char>) -> bool {
    exists|i: int| 0 <= i < t.len() && (#[trigger] t[i]).0@ == c
}

/// Each entry names the command of some step.
pub open spec fn ht_from_steps(t: Seq<(String, String)>, steps: Seq<crate::pipe::ast::ComposedStep>) -> bool {
    forall|i: int| 0 <= i < t.len() ==> names_step(steps, (#[trigger] t[i]).0@)
}

/// Each step's command has an entry.
pub open spec fn ht_covers(t: Seq<(String, String)>, steps: Seq<crate::pipe::ast::ComposedStep>) -> bool {
    forall|k: int| 0 <= k < steps.len() ==> table_has(t, (#[trigger] steps[k]).command_id@)
}

/// The schema hash of each command of the steps, each command once.
pub open spec fn hash_table(t: Seq<(String, String)>, steps: Seq<crate::pipe::ast::ComposedStep>, ms: Seq<PipeCommandManifest>) -> bool {
    &&& ht_distinct(t)
    &&& ht_hashes(t, ms)
    &&& ht_from_steps(t, steps)
    &&& ht_covers(t, steps)
}

/// What compiling a linear pipeline answers once the graph is linearised.
pub open spec fn compile_from_ast(ast: PipelineAst, ms: Seq<PipeCommandManifest>, graph_id: String, r: Result<CompileResult, CompileError>) -> bool {
    if ast.steps@.len() == 0 {
        r == Err::<CompileResult, CompileError>(CompileError::EmptyPipeline)
    } else if exists|i: int| 0 <= i < ast.steps@.len() && !manifest_ok(ms, (#[trigger] ast.steps@[i]).command_id@) {
        exists|i: int| 0 <= i < ast.steps@.len() && !manifest_ok(ms, (#[trigger] ast.steps@[i]).command_id@)
            && (forall|j: int| 0 <= j < i ==> manifest_ok(ms, (#[trigger] ast.steps@[j]).command_id@))
            && (r matches Err(e) && manifest_problem(ms, ast.steps@[i].command_id@, e))
    } else {
        exists|cr: Result<ComposedPipeline, ComposeError>| #[trigger] compose_outcome(ast, ms, cr) && match cr {
            Err(e) => r == Err::<CompileResult, CompileError>(CompileError::Compose(e)),
            Ok(p) => r matches Ok(res) && compiled_from(res, p, ms, graph_id),
        }
    }
}

fn validate_manifest_hash(m: &PipeCommandManifest) -> (r: Option<CompileError>)
    ensures
        r is None <==> m.schema_hash@ == schema_hash_spec(m.input_schema, m.output_schema),
        r matches Some(e) ==> (e matches CompileError::SchemaHashMismatch { command_id: c, expected, found } && c == m.command_id
            && expected@ == schema_hash_spec(m.input_schema, m.output_schema) && found == m.schema_hash),
{
    let expected = PipeCommandManifest::compute_schema_hash(&m.input_schema, &m.output_schema);
    if str_eq(m.schema_hash.as_str(), expected.as_str()) {
        None
    } else {
        Some(CompileError::SchemaHashMismatch { command_id: m.command_id.clone(), expected, found: m.schema_hash.clone() })
    }
}

/// Compiles a linear pipeline graph: validates it, linearises it, checks
/// that every command is registered with a consistent schema hash, composes
/// the steps, and records each step's quota and schema hash.
pub fn compile(graph: &PipelineGraph, registry: &CommandRegistry) -> (r: Result<CompileResult, CompileError>)
    requires
        graph.wf(),
        registry.wf(),
    ensures
        validation(*graph) matches Err(e) ==> r == Err::<CompileResult, CompileError>(CompileError::Graph(e)),
        validation(*graph) is Ok ==> exists|ar: Result<PipelineAst, GraphError>| #[trigger] linear_outcome(*graph, ar) && match ar {
            Err(e) => r == Err::<CompileResult, CompileError>(CompileError::Graph(e)),
            Ok(ast) => compile_from_ast(ast, registry.manifests(), graph.id(), r),
        },
{
    match graph.validate() {
        Ok(()) => {},
        Err(e) => {
            return Err(CompileError::Graph(e));
        },
    }
    let ar = graph.to_linear_ast();
    assert(linear_outcome(*graph, ar));
    let ast = match ar {
        Ok(a) => a,
        Err(e) => {
            return Err(CompileError::Graph(e));
        },
    };
    if ast.steps.len() == 0 {
        return Err(CompileError::EmptyPipeline);
    }
    let ghost ms = registry.manifests();
    let mut i: usize = 0;
    while i < ast.steps.len()
        invariant
            i <= ast.steps@.len(),
            ms == registry.manifests(),
            registry.wf(),
            validation(*graph) is Ok,
            linear_outcome(*graph, Ok::<PipelineAst, GraphError>(ast)),
            ast.steps@.len() > 0,
            forall|j: int| 0 <= j < i ==> manifest_ok(ms, (#[trigger] ast.steps@[j]).command_id@),
        decreases ast.steps@.len() - i,
    {
        let cid = ast.steps[i].command_id.as_str();
        match registry.inspect(cid) {
            Err(_) => {
                let e = CompileError::Compose(ComposeError::CommandNotFound(ast.steps[i].command_id.clone()));
                assert(manifest_problem(ms, cid@, e));
                assert(!manifest_ok(ms, ast.steps@[i as int].command_id@));
                assert(compile_from_ast(ast, ms, graph.id(), Err::<CompileResult, CompileError>(e)));
                return Err(e);
            },
            Ok(m) => match validate_manifest_hash(m) {
                Some(e) => {
                    assert(manifest_problem(ms, cid@, e));
                    assert(!manifest_ok(ms, ast.steps@[i as int].command_id@));
                    assert(compile_from_ast(ast, ms, graph.id(), Err::<CompileResult, CompileError>(e)));
                    return Err(e);
                },
                None => {},
            },
        }
        i = i + 1;
    }
    let cr = compose(&ast, registry);
    assert(compose_outcome(ast, ms, cr));
    let p = match cr {
        Ok(p) => p,
        Err(e) => {
            return Err(CompileError::Compose(e));
        },
    };
    proof {
        crate::pipe::ast::lemma_compose_ok_ids(ast, ms, p);
    }
    let (linear_steps, max_side_effect, hashes) = compile_steps(&p, registry);
    let ghost levels = p.steps@.map_values(|c: crate::pipe::ast::ComposedStep| c.side_effect_level);
    let res = CompileResult {
        graph_id: graph.graph_id().clone(),
        linear_steps,
        input_type: p.input_type,
        output_type: p.output_type,
        max_side_effect,
        command_schema_hashes: hashes,
    };
    assert(compiled_from(res, p, ms, graph.id()));
    Ok(res)
}


fn compile_steps(p: &ComposedPipeline, registry: &CommandRegistry) -> (r: (Vec<CompiledStep>, SideEffectLevel, Vec<(String, String)>))
    requires
        registry.wf(),
        forall|j: int| 0 <= j < p.steps@.len() ==> manifest_ok(registry.manifests(), (#[trigger] p.steps@[j]).command_id@),
    ensures
        r.0@.len() == p.steps@.len(),
        forall|i: int| 0 <= i < p.steps@.len() ==> {
            let s = #[trigger] r.0@[i];
            let c = p.steps@[i];
            let m = crate::pipe::registry::lookup_manifest(registry.manifests(), c.command_id@)->0;
            &&& s.step_id == c.step_id
            &&& s.command_id == c.command_id
            &&& s.input_type == c.input_type
            &&& s.output_type == c.output_type
            &&& s.side_effect_level == c.side_effect_level
            &&& s.resource_quota == m.resource_quota
            &&& s.schema_hash == m.schema_hash
        },
        r.1 == max_level(p.steps@.map_values(|c: crate::pipe::ast::ComposedStep| c.side_effect_level)),
        hash_table(r.2@, p.steps@, registry.manifests()),
{
    let ghost ms = registry.manifests();
    let mut linear_steps: Vec<CompiledStep> = Vec::new();
    let mut max_side_effect = SideEffectLevel::NoEffect;
    let mut hashes: Vec<(String, String)> = Vec::new();
    let ghost levels = p.steps@.map_values(|c: crate::pipe::ast::ComposedStep| c.side_effect_level);
    let mut k: usize = 0;
    while k < p.steps.len()
        invariant
            k <= p.steps@.len(),
            ms == registry.manifests(),
            registry.wf(),
            levels == p.steps@.map_values(|c: crate::pipe::ast::ComposedStep| c.side_effect_level),
            forall|j: int| 0 <= j < p.steps@.len() ==> manifest_ok(ms, (#[trigger] p.steps@[j]).command_id@),
            linear_steps@.len() == k,
            forall|j: int| 0 <= j < k ==> {
                let s = #[trigger] linear_steps@[j];
                let c = p.steps@[j];
                let m = crate::pipe::registry::lookup_manifest(ms, c.command_id@)->0;
                &&& s.step_id == c.step_id
                &&& s.command_id == c.command_id
                &&& s.input_type == c.input_type
                &&& s.output_type == c.output_type
                &&& s.side_effect_level == c.side_effect_level
                &&& s.resource_quota == m.resource_quota
                &&& s.schema_hash == m.schema_hash
            },
            max_side_effect == max_level(levels.take(k as int)),
            hash_table(hashes@, p.steps@.take(k as int), ms),
        decreases p.steps@.len() - k,
    {
        let step = &p.steps[k];
        let m = match registry.inspect(step.command_id.as_str()) {
            Ok(m) => m,
            Err(_) => {
                assert(manifest_ok(ms, p.steps@[k as int].command_id@));
                assert(false);
                return (linear_steps, max_side_effect, hashes);
            },
        };
        linear_steps.push(CompiledStep {
            step_id: step.step_id.clone(),
            command_id: step.command_id.clone(),
            input_type: step.input_type,
            output_type: step.output_type,
            side_effect_level: step.side_effect_level,
            resource_quota: m.resource_quota,
            schema_hash: m.schema_hash.clone(),
        });
        record_hash(&mut hashes, step.command_id.as_str(), &m.schema_hash, Ghost(p.steps@.take(k as int)), Ghost(ms));
        assert(p.steps@.take(k + 1) =~= p.steps@.take(k as int).push(p.steps@[k as int]));
        assert(levels.take(k + 1).drop_last() =~= levels.take(k as int));
        if rank(step.side_effect_level) > rank(max_side_effect) {
            max_side_effect = step.side_effect_level;
        }
        k = k + 1;
    }
    assert(levels.take(k as int) =~= levels);
    assert(p.steps@.take(k as int) =~= p.steps@);
    (linear_steps, max_side_effect, hashes)
}

fn record_hash(
    hashes: &mut Vec<(String, String)>,
    command_id: &str,
    schema_hash: &String,
    Ghost(steps): Ghost<Seq<crate::pipe::ast::ComposedStep>>,
    Ghost(ms): Ghost<Seq<PipeCommandManifest>>,
)
    requires
        hash_table(old(hashes)@, steps, ms),
        crate::pipe::registry::lookup_manifest(ms, command_id@) matches Some(m) && m.schema_hash == *schema_hash,
    ensures
        forall|s: crate::pipe::ast::ComposedStep| s.command_id@ == command_id@ ==> #[trigger] hash_table(final(hashes)@, steps.push(s), ms),
{
    let mut found = false;
    let mut a: usize = 0;
    while a < hashes.len()
        invariant
            a <= hashes@.len(),
            found <==> exists|b: int| 0 <= b < a && (#[trigger] hashes@[b]).0@ == command_id@,
        decreases hashes@.len() - a,
    {
        if str_eq(hashes[a].0.as_str(), command_id) {
            found = true;
        }
        a = a + 1;
    }
    let ghost prev = hashes@;
    if !found {
        hashes.push((crate::text::owned(command_id), schema_hash.clone()));
        assert(hashes@.drop_last() =~= prev);
    }
    assert forall|s: crate::pipe::ast::ComposedStep| s.command_id@ == command_id@ implies #[trigger] hash_table(hashes@, steps.push(s), ms) by {
        lemma_hash_table_step(prev, hashes@, steps, ms, command_id@, *schema_hash, found, s);
    }
}

proof fn lemma_hash_table_step(
    prev: Seq<(String, String)>,
    next: Seq<(String, String)>,
    steps: Seq<crate::pipe::ast::ComposedStep>,
    ms: Seq<PipeCommandManifest>,
    cid: Seq<char>,
    sh: String,
    found: bool,
    s: crate::pipe::ast::ComposedStep,
)
    requires
        hash_table(prev, steps, ms),
        crate::pipe::registry::lookup_manifest(ms, cid) matches Some(m) && m.schema_hash == sh,
        found <==> exists|b: int| 0 <= b < prev.len() && (#[trigger] prev[b]).0@ == cid,
        found ==> next == prev,
        !found ==> next.len() == prev.len() + 1 && next.drop_last() == prev && next.last().0@ == cid && next.last().1 == sh,
        s.command_id@ == cid,
    ensures
        hash_table(next, steps.push(s), ms),
{
    if found {
        lemma_ht_from_steps_grow(prev, steps, s);
        let b = choose|b: int| 0 <= b < prev.len() && (#[trigger] prev[b]).0@ == cid;
        lemma_ht_covers_found(prev, steps, s, b);
    } else {
        assert forall|i: int| 0 <= i < prev.len() implies next[i] == prev[i] by {
            assert(next.drop_last()[i] == next[i]);
        }
        assert(next =~= prev.push(next.last()));
        lemma_ht_distinct_push(prev, next.last());
        lemma_ht_hashes_push(prev, next.last(), ms);
        lemma_ht_from_steps_push(prev, steps, s, next.last());
        lemma_ht_covers_push(prev, steps, s, next.last());
    }
}

proof fn lemma_ht_from_steps_grow(t: Seq<(String, String)>, steps: Seq<crate::pipe::ast::ComposedStep>, s: crate::pipe::ast::ComposedStep)
    requires
        ht_from_steps(t, steps),
    ensures
        ht_from_steps(t, steps.push(s)),
{
    let st = steps.push(s);
    assert forall|i: int| 0 <= i < t.len() implies names_step(st, (#[trigger] t[i]).0@) by {
        let k = choose|k: int| 0 <= k < steps.len() && (#[trigger] steps[k]).command_id@ == t[i].0@;
        assert(st[k] == steps[k]);
    }
}

proof fn lemma_ht_covers_found(t: Seq<(String, String)>, steps: Seq<crate::pipe::ast::ComposedStep>, s: crate::pipe::ast::ComposedStep, b: int)
    requires
        ht_covers(t, steps),
        0 <= b < t.len(),
        t[b].0@ == s.command_id@,
    ensures
        ht_covers(t, steps.push(s)),
{
    let st = steps.push(s);
    assert forall|k: int| 0 <= k < st.len() implies table_has(t, (#[trigger] st[k]).command_id@) by {
        if k < steps.len() {
            assert(st[k] == steps[k]);
        } else {
            assert(st[k] == s);
        }
    }
}

proof fn lemma_ht_distinct_push(t: Seq<(String, String)>, e: (String, String))
    requires
        ht_distinct(t),
        forall|b: int| 0 <= b < t.len() ==> (#[trigger] t[b]).0@ != e.0@,
    ensures
        ht_distinct(t.push(e)),
{
    let n = t.push(e);
    assert forall|i: int, j: int| 0 <= i < j < n.len() implies (#[trigger] n[i]).0@ != (#[trigger] n[j]).0@ by {
        assert(n[i] == t[i]);
        if j < t.len() {
            assert(n[j] == t[j]);
        }
    }
}

proof fn lemma_ht_hashes_push(t: Seq<(String, String)>, e: (String, String), ms: Seq<PipeCommandManifest>)
    requires
        ht_hashes(t, ms),
        crate::pipe::registry::lookup_manifest(ms, e.0@) matches Some(m) && m.schema_hash == e.1,
    ensures
        ht_hashes(t.push(e), ms),
{
    let n = t.push(e);
    assert forall|i: int| 0 <= i < n.len() implies (crate::pipe::registry::lookup_manifest(ms, (#[trigger] n[i]).0@) matches Some(m)
        && n[i].1 == m.schema_hash) by {
        if i < t.len() {
            assert(n[i] == t[i]);
        }
    }
}

proof fn lemma_ht_from_steps_push(t: Seq<(String, String)>, steps: Seq<crate::pipe::ast::ComposedStep>, s: crate::pipe::ast::ComposedStep, e: (String, String))
    requires
        ht_from_steps(t, steps),
        e.0@ == s.command_id@,
    ensures
        ht_from_steps(t.push(e), steps.push(s)),
{
    let n = t.push(e);
    let st = steps.push(s);
    assert forall|i: int| 0 <= i < n.len() implies names_step(st, (#[trigger] n[i]).0@) by {
        if i < t.len() {
            assert(n[i] == t[i]);
            let k = choose|k: int| 0 <= k < steps.len() && (#[trigger] steps[k]).command_id@ == t[i].0@;
            assert(st[k] == steps[k]);
        } else {
            assert(st[steps.len() as int] == s);
        }
    }
}

proof fn lemma_ht_covers_push(t: Seq<(String, String)>, steps: Seq<crate::pipe::ast::ComposedStep>, s: crate::pipe::ast::ComposedStep, e: (String, String))
    requires
        ht_covers(t, steps),
        e.0@ == s.command_id@,
    ensures
        ht_covers(t.push(e), steps.push(s)),
{
    let n = t.push(e);
    let st = steps.push(s);
    assert forall|k: int| 0 <= k < st.len() implies table_has(n, (#[trigger] st[k]).command_id@) by {
        if k < steps.len() {
            assert(st[k] == steps[k]);
            let i = choose|i: int| 0 <= i < t.len() && (#[trigger] t[i]).0@ == steps[k].command_id@;
            assert(n[i] == t[i]);
        } else {
            assert(st[k] == s);
            assert(n[t.len() as int] == e);
        }
    }
}

// ---------------------------------------------------------------------------
// Compiling DAGs
// ---------------------------------------------------------------------------

/// The name a branch condition is recorded under.
pub open spec fn condition_name(c: BranchCondition) -> Seq<char> {
    match c {
        BranchCondition::FrameType => "frame_type"@,
        BranchCondition::Predicate { field, .. } => field@,
    }
}

/// The arguments of a branch step: its targets with their predicates, and
/// its condition.
pub open spec fn branch_args(branches: Seq<(crate::pipeline::graph::NodeId, serde_json::Value)>, c: BranchCondition) -> serde_json::Value {
    json_object_value(
        seq![
            ("branches"@, json_array_value(branches.map_values(|b: (crate::pipeline::graph::NodeId, serde_json::Value)|
                json_object_value(seq![("target"@, json_string_value(b.0.0@)), ("predicate"@, b.1)])))),
            ("condition"@, json_string_value(condition_name(c))),
        ],
    )
}

/// The empty JSON object.
pub open spec fn empty_object() -> serde_json::Value {
    json_object_value(Seq::empty())
}

/// A step that runs no command: typed JSON in and out, taking the previous
/// output, failing fast, with no side effect, with the given arguments.
pub open spec fn plain_composed(c: ComposedStep, id: Seq<char>, args: serde_json::Value) -> bool {
    &&& c.step_id@ == id
    &&& c.command_id@ == Seq::<char>::empty()
    &&& c.input_type == (FrameType::JsonValue, Cardinality::One)
    &&& c.output_type == (FrameType::JsonValue, Cardinality::One)
    &&& c.input_binding == InputBinding::PreviousStep
    &&& c.failure_policy == FailurePolicy::FailFast
    &&& c.side_effect_level == SideEffectLevel::NoEffect
    &&& c.args == args
}

/// The join strategy of a merge strategy.
pub open spec fn join_strategy(m: MergeStrategy) -> DagMergeStrategy {
    match m {
        MergeStrategy::Concat => DagMergeStrategy::Concat,
        MergeStrategy::Interleave => DagMergeStrategy::Interleave,
        MergeStrategy::FirstNonEmpty => DagMergeStrategy::FirstNonEmpty,
    }
}

/// Whether `step` is the DAG step compiled from a node that is not the entry:
/// its edges' other ends as predecessors and successors; a command takes its
/// manifest's types and side effect and its arguments; the other nodes run no
/// command, a branch recording its targets and condition, a join its strategy.
pub open spec fn dag_step_of(g: PipelineGraph, ms: Seq<PipeCommandManifest>, node: Node, step: DagStep) -> bool {
    let id = node_key(node);
    &&& views(step.predecessors@) == predecessors(g.edge_seq(), id)
    &&& views(step.successors@) == successors(g.edge_seq(), id)
    &&& match node {
        Node::Command { node_id, command_id, args } => {
            &&& crate::pipe::registry::lookup_manifest(ms, command_id@) matches Some(m) && {
                &&& step.composed.input_type == m.input_frame
                &&& step.composed.output_type == m.output_frame
                &&& step.composed.side_effect_level == m.side_effect_level
            }
            &&& step.kind == DagNodeKind::Command
            &&& step.composed.step_id@ == id
            &&& step.composed.command_id == command_id
            &&& step.composed.input_binding == InputBinding::PreviousStep
            &&& step.composed.failure_policy == FailurePolicy::FailFast
            &&& step.composed.args == args
        },
        Node::Tee { .. } => step.kind == DagNodeKind::Tee && plain_composed(step.composed, id, empty_object()),
        Node::Branch { condition, branches, .. } => step.kind == DagNodeKind::Branch && plain_composed(
            step.composed,
            id,
            branch_args(branches@, condition),
        ),
        Node::Join { merge_strategy, .. } => step.kind == DagNodeKind::Join { strategy: join_strategy(merge_strategy) }
            && plain_composed(step.composed, id, empty_object()),
        Node::Exit { .. } => step.kind == DagNodeKind::Exit && plain_composed(step.composed, id, empty_object()),
        Node::Entry { .. } => false,
    }
}

/// The command of a node, if it is a command node.
pub open spec fn node_command(n: Node) -> Option<Seq<char>> {
    match n {
        Node::Command { command_id, .. } => Some(command_id@),
        _ => None,
    }
}

/// The node is a command whose manifest is missing or inconsistent.
pub open spec fn node_is_bad(ms: Seq<PipeCommandManifest>, n: Node) -> bool {
    match node_command(n) {
        Some(c) => !manifest_ok(ms, c),
        None => false,
    }
}

/// The node at position `k` of the order is a command whose manifest is
/// missing or inconsistent.
pub open spec fn bad_command(g: PipelineGraph, ms: Seq<PipeCommandManifest>, order: Seq<int>, k: int) -> bool {
    node_command(g.node_seq()[order[k]]) matches Some(c) && !manifest_ok(ms, c)
}

/// The positions of the order that are not the entry node.
pub open spec fn kept_positions(g: PipelineGraph, order: Seq<int>) -> Seq<int> {
    order.filter(|p: int| !(g.node_seq()[p] is Entry))
}

/// What compiling a graph gives for a topological order of its nodes: the
/// first command of the order with a missing or inconsistent manifest fails
/// it; otherwise one step per node that is not the entry, in the order, the
/// pipeline's types those of its first and last steps (JSON values when
/// there is none).
pub open spec fn dag_from_order(g: PipelineGraph, ms: Seq<PipeCommandManifest>, order: Seq<int>, r: Result<DagPipeline, CompileError>) -> bool {
    if exists|k: int| 0 <= k < order.len() && #[trigger] bad_command(g, ms, order, k) {
        exists|k: int|
            0 <= k < order.len() && #[trigger] bad_command(g, ms, order, k) && (forall|j: int| 0 <= j < k ==> !#[trigger] bad_command(g, ms, order, j))
                && (r matches Err(e) && manifest_problem(ms, node_command(g.node_seq()[order[k]])->0, e))
    } else {
        let kept = kept_positions(g, order);
        r matches Ok(d) && {
            &&& d.pipeline_id == g.id()
            &&& d.steps@.len() == kept.len()
            &&& forall|i: int| 0 <= i < kept.len() ==> dag_step_of(g, ms, g.node_seq()[kept[i]], #[trigger] d.steps@[i])
            &&& d.input_type == (if kept.len() > 0 { d.steps@[0].composed.input_type } else { (FrameType::JsonValue, Cardinality::One) })
            &&& d.output_type == (if kept.len() > 0 { d.steps@.last().composed.output_type } else { (FrameType::JsonValue, Cardinality::One) })
        }
    }
}

fn plain_step(id: &String, args: serde_json::Value, kind: DagNodeKind, preds: Vec<String>, succs: Vec<String>) -> (r: DagStep)
    ensures
        plain_composed(r.composed, id@, args),
        r.kind == kind,
        r.predecessors@ == preds@,
        r.successors@ == succs@,
{
    DagStep {
        composed: ComposedStep {
            step_id: id.clone(),
            command_id: String::new(),
            input_type: (FrameType::JsonValue, Cardinality::One),
            output_type: (FrameType::JsonValue, Cardinality::One),
            input_binding: InputBinding::PreviousStep,
            failure_policy: FailurePolicy::FailFast,
            side_effect_level: SideEffectLevel::NoEffect,
            args,
        },
        kind,
        predecessors: preds,
        successors: succs,
    }
}

fn empty_object_exec() -> (r: serde_json::Value)
    ensures
        r == empty_object(),
{
    let e: Vec<(String, serde_json::Value)> = Vec::new();
    assert(entry_views(e@) =~= Seq::<(Seq<char>, serde_json::Value)>::empty());
    json_object(e)
}

fn branch_args_exec(branches: &Vec<(crate::pipeline::graph::NodeId, serde_json::Value)>, c: &BranchCondition) -> (r: serde_json::Value)
    ensures
        r == branch_args(branches@, *c),
{
    let ghost target = |b: (crate::pipeline::graph::NodeId, serde_json::Value)|
        json_object_value(seq![("target"@, json_string_value(b.0.0@)), ("predicate"@, b.1)]);
    let mut items: Vec<serde_json::Value> = Vec::new();
    let mut i: usize = 0;
    while i < branches.len()
        invariant
            i <= branches@.len(),
            target == (|b: (crate::pipeline::graph::NodeId, serde_json::Value)|
                json_object_value(seq![("target"@, json_string_value(b.0.0@)), ("predicate"@, b.1)])),
            items@ == branches@.take(i as int).map_values(target),
        decreases branches@.len() - i,
    {
        let mut entry: Vec<(String, serde_json::Value)> = Vec::new();
        entry.push((owned("target"), json_string(branches[i].0.as_str())));
        entry.push((owned("predicate"), clone_json(&branches[i].1)));
        assert(entry_views(entry@) =~= seq![("target"@, json_string_value(branches@[i as int].0.0@)), ("predicate"@, branches@[i as int].1)]);
        items.push(json_object(entry));
        assert(items@ =~= branches@.take(i + 1).map_values(target));
        i = i + 1;
    }
    assert(branches@.take(i as int) =~= branches@);
    let cond = match c {
        BranchCondition::FrameType => json_string("frame_type"),
        BranchCondition::Predicate { field, .. } => json_string(field.as_str()),
    };
    let mut top: Vec<(String, serde_json::Value)> = Vec::new();
    top.push((owned("branches"), json_array(items)));
    top.push((owned("condition"), cond));
    assert(entry_views(top@) =~= seq![
        ("branches"@, json_array_value(branches@.map_values(target))),
        ("condition"@, json_string_value(condition_name(*c))),
    ]);
    json_object(top)
}

/// The DAG step of the node at position `p`: none for the entry, the
/// manifest's problem for a command without a consistent manifest.
fn dag_step_at(graph: &PipelineGraph, registry: &CommandRegistry, p: usize) -> (r: Result<Option<DagStep>, CompileError>)
    requires
        graph.wf(),
        registry.wf(),
        p < graph.node_seq().len(),
    ensures
        graph.node_seq()[p as int] is Entry ==> r == Ok::<Option<DagStep>, CompileError>(None),
        node_command(graph.node_seq()[p as int]) matches Some(c) ==> (!manifest_ok(registry.manifests(), c) ==> (r matches Err(e)
            && manifest_problem(registry.manifests(), c, e))),
        !(graph.node_seq()[p as int] is Entry) && !node_is_bad(registry.manifests(), graph.node_seq()[p as int]) ==> (r matches Ok(
            Some(step),
        ) && dag_step_of(*graph, registry.manifests(), graph.node_seq()[p as int], step)),
{
    let node = graph.node_at(p);
    let id = node.node_id();
    let preds = graph.predecessors_of(id.as_str());
    let succs = graph.successors_of(id.as_str());
    match node {
        Node::Entry { .. } => Ok(None),
        Node::Command { node_id, command_id, args } => {
            let m = match registry.inspect(command_id.as_str()) {
                Ok(m) => m,
                Err(_) => {
                    return Err(CompileError::Compose(ComposeError::CommandNotFound(command_id.clone())));
                },
            };
            if let Some(e) = validate_manifest_hash(m) {
                return Err(e);
            }
            Ok(Some(DagStep {
                composed: ComposedStep {
                    step_id: node_id.0.clone(),
                    command_id: command_id.clone(),
                    input_type: m.input_frame,
                    output_type: m.output_frame,
                    input_binding: InputBinding::PreviousStep,
                    failure_policy: FailurePolicy::FailFast,
                    side_effect_level: m.side_effect_level,
                    args: clone_json(args),
                },
                kind: DagNodeKind::Command,
                predecessors: preds,
                successors: succs,
            }))
        },
        Node::Tee { node_id, .. } => Ok(Some(plain_step(&node_id.0, empty_object_exec(), DagNodeKind::Tee, preds, succs))),
        Node::Branch { node_id, condition, branches } => {
            let args = branch_args_exec(branches, condition);
            Ok(Some(plain_step(&node_id.0, args, DagNodeKind::Branch, preds, succs)))
        },
        Node::Join { node_id, merge_strategy, .. } => {
            let strategy = match merge_strategy {
                MergeStrategy::Concat => DagMergeStrategy::Concat,
                MergeStrategy::Interleave => DagMergeStrategy::Interleave,
                MergeStrategy::FirstNonEmpty => DagMergeStrategy::FirstNonEmpty,
            };
            Ok(Some(plain_step(&node_id.0, empty_object_exec(), DagNodeKind::Join { strategy }, preds, succs)))
        },
        Node::Exit { node_id } => Ok(Some(plain_step(&node_id.0, empty_object_exec(), DagNodeKind::Exit, preds, succs))),
    }
}

/// The positions of the graph's nodes in a topological order, or the cycle
/// error when some nodes can never be placed.
fn topological_sort(graph: &PipelineGraph) -> (r: Result<Vec<usize>, CompileError>)
    ensures
        r matches Ok(order) ==> is_topo_order(graph_matrix(*graph), order@.map_values(|v: usize| v as int)),
        r matches Err(e) ==> e == CompileError::Graph(GraphError::CycleDetected) && exists|s: Set<int>| is_stuck_core(graph_matrix(*graph), s),
{
    let adj = graph.matrix();
    match topo_order(&adj) {
        Some(order) => Ok(order),
        None => Err(CompileError::Graph(GraphError::CycleDetected)),
    }
}

/// Compiles a graph into a DAG pipeline: validates it, orders its nodes
/// topologically, and compiles each node but the entry into a step (see
/// `dag_from_order`).
pub fn compile_dag(graph: &PipelineGraph, registry: &CommandRegistry) -> (r: Result<DagPipeline, CompileError>)
    requires
        graph.wf(),
        registry.wf(),
    ensures
        validation(*graph) matches Err(e) ==> r == Err::<DagPipeline, CompileError>(CompileError::Graph(e)),
        validation(*graph) is Ok ==> (r == Err::<DagPipeline, CompileError>(CompileError::Graph(GraphError::CycleDetected))
            && exists|s: Set<int>| is_stuck_core(graph_matrix(*graph), s)) || exists|order: Seq<int>| #[trigger] is_topo_order(
            graph_matrix(*graph),
            order,
        ) && dag_from_order(*graph, registry.manifests(), order, r),
{
    match graph.validate() {
        Ok(()) => {},
        Err(e) => {
            return Err(CompileError::Graph(e));
        },
    }
    let order = topological_sort(graph)?;
    let ghost ov = order@.map_values(|v: usize| v as int);
    let ghost ms = registry.manifests();
    let ghost g = *graph;
    let mut steps: Vec<DagStep> = Vec::new();
    let mut k: usize = 0;
    while k < order.len()
        invariant
            k <= order@.len(),
            graph.wf(),
            registry.wf(),
            validation(*graph) is Ok,
            ms == registry.manifests(),
            g == *graph,
            ov == order@.map_values(|v: usize| v as int),
            is_topo_order(graph_matrix(g), ov),
            forall|j: int| 0 <= j < k ==> !#[trigger] bad_command(g, ms, ov, j),
            steps@.len() == kept_positions(g, ov.take(k as int)).len(),
            forall|i: int| 0 <= i < steps@.len() ==> dag_step_of(g, ms, g.node_seq()[kept_positions(g, ov.take(k as int))[i]], #[trigger] steps@[i]),
        decreases order@.len() - k,
    {
        let p = order[k];
        assert(ov[k as int] == p as int);
        assert(0 <= ov[k as int] < g.node_seq().len());
        let ghost kept_before = kept_positions(g, ov.take(k as int));
        proof {
            assert(ov.take(k + 1) =~= ov.take(k as int).push(ov[k as int]));
            ov.take(k as int).lemma_filter_push(ov[k as int], |q: int| !(g.node_seq()[q] is Entry));
        }
        match dag_step_at(graph, registry, p) {
            Err(e) => {
                proof {
                    assert(bad_command(g, ms, ov, k as int));
                    assert(dag_from_order(g, ms, ov, Err::<DagPipeline, CompileError>(e)));
                }
                return Err(e);
            },
            Ok(None) => {
                assert(!bad_command(g, ms, ov, k as int));
            },
            Ok(Some(step)) => {
                assert(!bad_command(g, ms, ov, k as int));
                steps.push(step);
                assert forall|i: int| 0 <= i < steps@.len() implies dag_step_of(g, ms, g.node_seq()[kept_positions(g, ov.take(k + 1))[i]], #[trigger] steps@[i]) by {
                    if i < kept_before.len() {
                        assert(kept_positions(g, ov.take(k + 1))[i] == kept_before[i]);
                    }
                }
            },
        }
        k = k + 1;
    }
    assert(ov.take(k as int) =~= ov);
    let input_type = if steps.len() > 0 { steps[0].composed.input_type } else { (FrameType::JsonValue, Cardinality::One) };
    let output_type = if steps.len() > 0 { steps[steps.len() - 1].composed.output_type } else { (FrameType::JsonValue, Cardinality::One) };
    let d = DagPipeline { pipeline_id: graph.graph_id().clone(), steps, input_type, output_type };
    assert(dag_from_order(g, ms, ov, Ok::<DagPipeline, CompileError>(d)));
    Ok(d)
}

} // verus!
