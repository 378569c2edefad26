use std::sync::atomic::{AtomicUsize, Ordering};
use std::sync::{Arc, Mutex};

use seaki::pipe::approval_gate::{ApprovalGate, ApprovalGateError, ApprovalRequestInput};
use seaki::pipe::ast::{
    compose, ComposedPipeline, ComposedStep, DagMergeStrategy, DagNodeKind, DagPipeline, DagStep, FailurePolicy,
    InputBinding, PipelineAst, PipelineStep,
};
use seaki::pipe::checkpoint::{Backoff, Checkpoint, CheckpointStore, InMemoryCheckpointStore, RetryPolicy};
use seaki::pipe::compensate::{rollback_dag, CompensatingExecutor};
use seaki::pipe::dag::{resume_dag, run_dag, run_dag_with_approval, run_dag_with_checkpoint};
use seaki::pipe::dry_run::{ErrorKind, FrameEnvelope, PipelineError};
use seaki::pipe::executor::{BuiltinExecutor, MapExecutor};
use seaki::pipe::frame::{Cardinality, FrameType, TypedFrame};
use seaki::pipe::registry::{CommandRegistry, PipeCommandManifest, ResourceQuota, SideEffectLevel};
use seaki::pipe::run::{
    run, CommandExecutor, ExecutionContext, ResourceUsage, SimplePolicy, StepState, MAX_FRAME_COUNT,
};
use seaki::pipe::state_machine::{PipelineState, PipelineStateMachine};
use seaki::policy::types::ApprovalStatus;
use serde_json::Value;

fn j(text: &str) -> Value {
    serde_json::from_str(text).unwrap()
}

fn test_context() -> ExecutionContext {
    ExecutionContext {
        workspace_id: "ws-1".to_string(),
        actor_id: "actor-1".to_string(),
        pipeline_id: "pipe-1".to_string(),
        audit: Vec::new(),
        resource_used: ResourceUsage::default(),
    }
}

fn builtin_executors() -> Vec<(String, TestExec)> {
    vec![
        ("wiki.search".to_string(), TestExec::Builtin(BuiltinExecutor::WikiSearch)),
        ("citation.resolve".to_string(), TestExec::Builtin(BuiltinExecutor::CitationResolve)),
        ("adr.summarize".to_string(), TestExec::Builtin(BuiltinExecutor::AdrSummarize)),
        ("wiki.patch.propose".to_string(), TestExec::Builtin(BuiltinExecutor::WikiPatchPropose)),
        ("filter".to_string(), TestExec::Builtin(BuiltinExecutor::Filter)),
        ("map".to_string(), TestExec::Builtin(BuiltinExecutor::MapFrames)),
    ]
}

fn manifest(command_id: &str, description: &str, schema: &str, frame: TypedFrame) -> PipeCommandManifest {
    let input = j(schema);
    let output = j(schema);
    let hash = PipeCommandManifest::compute_schema_hash(&input, &output);
    PipeCommandManifest {
        command_id: command_id.to_string(),
        description: description.to_string(),
        input_schema: input,
        output_schema: output,
        input_frame: frame,
        output_frame: frame,
        side_effect_level: SideEffectLevel::NoEffect,
        resource_quota: None,
        schema_hash: hash,
    }
}

fn registry_with_failing() -> CommandRegistry {
    let mut registry = CommandRegistry::new();
    registry
        .register(manifest("failing", "always fails", r#"{"type": "object"}"#, (FrameType::JsonValue, Cardinality::One)))
        .unwrap();
    registry
}

struct FailingExecutor;

impl CommandExecutor for FailingExecutor {
    fn execute(
        &self,
        step: &ComposedStep,
        _input: Vec<FrameEnvelope>,
        _ctx: &mut ExecutionContext,
    ) -> Result<Vec<FrameEnvelope>, PipelineError> {
        Err(PipelineError {
            retryable: false,
            failed_step_id: step.step_id.clone(),
            error_kind: ErrorKind::CommandNotFound,
        })
    }
}

struct FlakyExecutor {
    fail_count: AtomicUsize,
}

impl CommandExecutor for FlakyExecutor {
    fn execute(
        &self,
        step: &ComposedStep,
        _input: Vec<FrameEnvelope>,
        _ctx: &mut ExecutionContext,
    ) -> Result<Vec<FrameEnvelope>, PipelineError> {
        let remaining = self.fail_count.fetch_sub(1, Ordering::SeqCst);
        if remaining > 0 {
            Err(PipelineError {
                retryable: true,
                failed_step_id: step.step_id.clone(),
                error_kind: ErrorKind::QuotaExceeded,
            })
        } else {
            Ok(vec![FrameEnvelope {
                seq: 0,
                step_id: step.step_id.clone(),
                frame_type: FrameType::JsonValue,
                payload: j(r#"{"recovered": true}"#),
            }])
        }
    }
}

struct AlwaysRetryableExecutor;

impl CommandExecutor for AlwaysRetryableExecutor {
    fn execute(
        &self,
        step: &ComposedStep,
        _input: Vec<FrameEnvelope>,
        _ctx: &mut ExecutionContext,
    ) -> Result<Vec<FrameEnvelope>, PipelineError> {
        Err(PipelineError {
            retryable: true,
            failed_step_id: step.step_id.clone(),
            error_kind: ErrorKind::QuotaExceeded,
        })
    }
}

/// The executors the tests register, as one type.
enum TestExec {
    Builtin(BuiltinExecutor),
    Failing(FailingExecutor),
    Flaky(FlakyExecutor),
    AlwaysRetryable(AlwaysRetryableExecutor),
    FailingCompensate(FailingCompensateExecutor),
}

impl CommandExecutor for TestExec {
    fn execute(
        &self,
        step: &ComposedStep,
        input: Vec<FrameEnvelope>,
        ctx: &mut ExecutionContext,
    ) -> Result<Vec<FrameEnvelope>, PipelineError> {
        match self {
            TestExec::Builtin(e) => e.execute(step, input, ctx),
            TestExec::Failing(e) => e.execute(step, input, ctx),
            TestExec::Flaky(e) => e.execute(step, input, ctx),
            TestExec::AlwaysRetryable(e) => e.execute(step, input, ctx),
            TestExec::FailingCompensate(e) => e.execute(step, input, ctx),
        }
    }
}

struct CompensatingMapExecutor;

impl CommandExecutor for CompensatingMapExecutor {
    fn execute(
        &self,
        step: &ComposedStep,
        input: Vec<FrameEnvelope>,
        ctx: &mut ExecutionContext,
    ) -> Result<Vec<FrameEnvelope>, PipelineError> {
        MapExecutor.execute(step, input, ctx)
    }
}

impl CompensatingExecutor for CompensatingMapExecutor {
    fn compensates(
        &self,
        _step: &ComposedStep,
        _executed_output: &[FrameEnvelope],
        _result: &Result<Vec<FrameEnvelope>, PipelineError>,
    ) -> bool {
        true
    }

    fn compensate(
        &self,
        step: &ComposedStep,
        _executed_output: &[FrameEnvelope],
        _ctx: &mut ExecutionContext,
    ) -> Result<Vec<FrameEnvelope>, PipelineError> {
        Ok(vec![FrameEnvelope {
            seq: 0,
            step_id: step.step_id.clone(),
            frame_type: FrameType::JsonValue,
            payload: Value::Object(
                [("compensated".to_string(), Value::String(step.step_id.clone()))].into_iter().collect(),
            ),
        }])
    }
}

struct FailingCompensateExecutor;

impl CommandExecutor for FailingCompensateExecutor {
    fn execute(
        &self,
        step: &ComposedStep,
        input: Vec<FrameEnvelope>,
        ctx: &mut ExecutionContext,
    ) -> Result<Vec<FrameEnvelope>, PipelineError> {
        MapExecutor.execute(step, input, ctx)
    }
}

impl CompensatingExecutor for FailingCompensateExecutor {
    fn compensates(
        &self,
        _step: &ComposedStep,
        _executed_output: &[FrameEnvelope],
        _result: &Result<Vec<FrameEnvelope>, PipelineError>,
    ) -> bool {
        true
    }

    fn compensate(
        &self,
        step: &ComposedStep,
        _executed_output: &[FrameEnvelope],
        _ctx: &mut ExecutionContext,
    ) -> Result<Vec<FrameEnvelope>, PipelineError> {
        Err(PipelineError {
            retryable: false,
            failed_step_id: step.step_id.clone(),
            error_kind: ErrorKind::SideEffectBlocked,
        })
    }
}

/// The compensators the tests register, as one type.
enum TestCompensator {
    Mapping(CompensatingMapExecutor),
    Failing(FailingCompensateExecutor),
    Tracking(TrackingCompensator),
}

impl CommandExecutor for TestCompensator {
    fn execute(
        &self,
        step: &ComposedStep,
        input: Vec<FrameEnvelope>,
        ctx: &mut ExecutionContext,
    ) -> Result<Vec<FrameEnvelope>, PipelineError> {
        match self {
            TestCompensator::Mapping(e) => e.execute(step, input, ctx),
            TestCompensator::Failing(e) => e.execute(step, input, ctx),
            TestCompensator::Tracking(e) => e.execute(step, input, ctx),
        }
    }
}

impl CompensatingExecutor for TestCompensator {
    fn compensates(
        &self,
        _step: &ComposedStep,
        _executed_output: &[FrameEnvelope],
        _result: &Result<Vec<FrameEnvelope>, PipelineError>,
    ) -> bool {
        true
    }

    fn compensate(
        &self,
        step: &ComposedStep,
        executed_output: &[FrameEnvelope],
        ctx: &mut ExecutionContext,
    ) -> Result<Vec<FrameEnvelope>, PipelineError> {
        match self {
            TestCompensator::Mapping(e) => e.compensate(step, executed_output, ctx),
            TestCompensator::Failing(e) => e.compensate(step, executed_output, ctx),
            TestCompensator::Tracking(e) => e.compensate(step, executed_output, ctx),
        }
    }
}

/// Tries again at once.
struct NoWait;

impl Backoff for NoWait {
    fn wait_ms(&mut self, _ms: u64) {}
}

fn run_builtin(pipeline: &ComposedPipeline, registry: &CommandRegistry, ctx: &mut ExecutionContext) -> Result<seaki::pipe::run::RunResult, PipelineError> {
    let executors = builtin_executors();
    run(pipeline, j("{}"), registry, &executors, &SimplePolicy, ctx)
}

fn step(step_id: &str, command_id: &str, binding: InputBinding, policy: FailurePolicy, args: &str) -> PipelineStep {
    PipelineStep {
        step_id: step_id.to_string(),
        command_id: command_id.to_string(),
        input_binding: binding,
        failure_policy: policy,
        args: j(args),
    }
}

// ---------------------------------------------------------------------------
// Linear runs
// ---------------------------------------------------------------------------

#[test]
fn run_empty_pipeline_fails() {
    let registry = CommandRegistry::builtin();
    let pipeline = ComposedPipeline {
        pipeline_id: "empty".to_string(),
        steps: vec![],
        input_type: (FrameType::JsonValue, Cardinality::One),
        output_type: (FrameType::JsonValue, Cardinality::One),
    };
    let mut ctx = test_context();
    let result = run_builtin(&pipeline, &registry, &mut ctx);
    assert!(result.is_err());
    assert!(matches!(result.unwrap_err().error_kind, ErrorKind::ComposeFailed));
}

#[test]
fn run_single_step_success() {
    let registry = CommandRegistry::builtin();
    let ast = PipelineAst {
        pipeline_id: "test".to_string(),
        steps: vec![step(
            "s1",
            "filter",
            InputBinding::Constant(j(r#"[{"x": 1}, {"x": 2}]"#)),
            FailurePolicy::FailFast,
            r#"{"predicate": {"x": 1}}"#,
        )],
    };
    let composed = compose(&ast, &registry).unwrap();
    let mut ctx = test_context();
    let result = run_builtin(&composed, &registry, &mut ctx).unwrap();

    assert_eq!(result.output.len(), 1);
    assert_eq!(result.output[0].payload, j(r#"{"x": 1}"#));
    assert_eq!(ctx.audit.len(), 1);
    assert_eq!(ctx.audit[0].step_id, "s1");
}

#[test]
fn run_multi_step_chain_success() {
    let registry = CommandRegistry::builtin();
    let ast = PipelineAst {
        pipeline_id: "chain".to_string(),
        steps: vec![
            step(
                "s1",
                "map",
                InputBinding::Constant(j(r#"[{"x": 1}, {"x": 2}]"#)),
                FailurePolicy::FailFast,
                r#"{"transform": {"tag": "a"}}"#,
            ),
            step("s2", "filter", InputBinding::PreviousStep, FailurePolicy::FailFast, r#"{"predicate": {"tag": "a"}}"#),
        ],
    };
    let composed = compose(&ast, &registry).unwrap();
    let mut ctx = test_context();
    let result = run_builtin(&composed, &registry, &mut ctx).unwrap();

    assert_eq!(result.output.len(), 2);
    assert_eq!(result.output[0].payload, j(r#"{"x": 1, "tag": "a"}"#));
    assert_eq!(result.output[1].payload, j(r#"{"x": 2, "tag": "a"}"#));
    assert_eq!(ctx.audit.len(), 2);
}

#[test]
fn run_fail_fast_propagates_error() {
    let registry = registry_with_failing();
    let ast = PipelineAst {
        pipeline_id: "fail".to_string(),
        steps: vec![step("s1", "failing", InputBinding::Constant(j("{}")), FailurePolicy::FailFast, "{}")],
    };
    let composed = compose(&ast, &registry).unwrap();
    let mut ctx = test_context();
    let executors = vec![("failing".to_string(), FailingExecutor)];
    let result = run(&composed, j("{}"), &registry, &executors, &SimplePolicy, &mut ctx);

    assert!(result.is_err());
    let err = result.unwrap_err();
    assert_eq!(err.failed_step_id, "s1");
    assert!(matches!(err.error_kind, ErrorKind::CommandNotFound));
}

#[test]
fn run_skip_policy_continues() {
    let mut registry = registry_with_failing();
    registry
        .register(manifest("map", "map", r#"{"type": "array"}"#, (FrameType::JsonValue, Cardinality::Many)))
        .unwrap();

    let ast = PipelineAst {
        pipeline_id: "skip".to_string(),
        steps: vec![
            step("s1", "failing", InputBinding::Constant(j(r#"[{"x": 1}]"#)), FailurePolicy::Skip, "{}"),
            step(
                "s2",
                "map",
                InputBinding::PreviousStep,
                FailurePolicy::FailFast,
                r#"{"transform": {"recovered": true}}"#,
            ),
        ],
    };
    let composed = compose(&ast, &registry).unwrap();
    let mut ctx = test_context();
    let executors = vec![
        ("failing".to_string(), TestExec::Failing(FailingExecutor)),
        ("map".to_string(), TestExec::Builtin(BuiltinExecutor::MapFrames)),
    ];
    let result = run(&composed, j("{}"), &registry, &executors, &SimplePolicy, &mut ctx).unwrap();

    assert!(result.output.is_empty());
    assert!(ctx.audit.iter().any(|a| a.step_id == "s1" && a.decision.starts_with("skipped")));
    assert!(ctx.audit.iter().any(|a| a.step_id == "s2" && a.decision == "allow"));
}

#[test]
fn run_default_value_on_failure() {
    let registry = registry_with_failing();
    let ast = PipelineAst {
        pipeline_id: "default".to_string(),
        steps: vec![step(
            "s1",
            "failing",
            InputBinding::Constant(j("{}")),
            FailurePolicy::Default(j(r#"{"default": true}"#)),
            "{}",
        )],
    };
    let composed = compose(&ast, &registry).unwrap();
    let mut ctx = test_context();
    let executors = vec![("failing".to_string(), FailingExecutor)];
    let result = run(&composed, j("{}"), &registry, &executors, &SimplePolicy, &mut ctx).unwrap();

    assert_eq!(result.output.len(), 1);
    assert_eq!(result.output[0].payload, j(r#"{"default": true}"#));
}

#[test]
fn run_require_approval_blocks_execution() {
    let registry = CommandRegistry::builtin();
    let ast = PipelineAst {
        pipeline_id: "approval".to_string(),
        steps: vec![step("s1", "wiki.patch.propose", InputBinding::Constant(j("[]")), FailurePolicy::FailFast, "{}")],
    };
    let composed = compose(&ast, &registry).unwrap();
    let mut ctx = test_context();
    let result = run_builtin(&composed, &registry, &mut ctx);

    assert!(result.is_err());
    let err = result.unwrap_err();
    assert_eq!(err.failed_step_id, "s1");
    assert!(matches!(err.error_kind, ErrorKind::ApprovalRequired));
    assert!(err.retryable);
    assert!(!ctx.audit.iter().any(|a| a.step_id == "s1" && a.decision == "allow"));
}

#[test]
fn run_resource_exceeded_terminates() {
    let registry = CommandRegistry::builtin();
    let items: Vec<String> = (0..1_001).map(|i| format!("{{\"idx\": {i}}}")).collect();
    let large_array = j(&format!("[{}]", items.join(",")));

    let ast = PipelineAst {
        pipeline_id: "res".to_string(),
        steps: vec![step("s1", "filter", InputBinding::Constant(large_array), FailurePolicy::FailFast, r#"{"predicate": {}}"#)],
    };
    let composed = compose(&ast, &registry).unwrap();
    let mut ctx = test_context();
    let result = run_builtin(&composed, &registry, &mut ctx);

    assert!(result.is_err());
    let err = result.unwrap_err();
    assert_eq!(err.failed_step_id, "s1");
    assert!(matches!(
        err.error_kind,
        ErrorKind::ResourceExceeded { ref limit, .. } if limit == "frame_count"
    ));
    assert_eq!(MAX_FRAME_COUNT, 1000);
}

fn filter_executor_real() {
    let registry = CommandRegistry::builtin();
    let ast = PipelineAst {
        pipeline_id: "filter".to_string(),
        steps: vec![step(
            "s1",
            "filter",
            InputBinding::Constant(j(r#"[
                {"name": "alice", "age": 30},
                {"name": "bob", "age": 25},
                {"name": "alice", "age": 40}
            ]"#)),
            FailurePolicy::FailFast,
            r#"{"predicate": {"name": "alice"}}"#,
        )],
    };
    let composed = compose(&ast, &registry).unwrap();
    let mut ctx = test_context();
    let result = run_builtin(&composed, &registry, &mut ctx).unwrap();

    assert_eq!(result.output.len(), 2);
    assert!(result.output.iter().all(|f| f.payload.get("name") == Some(&j(r#""alice""#))));
}

fn map_executor_real() {
    let registry = CommandRegistry::builtin();
    let ast = PipelineAst {
        pipeline_id: "map".to_string(),
        steps: vec![step(
            "s1",
            "map",
            InputBinding::Constant(j(r#"[{"x": 1}, {"x": 2}]"#)),
            FailurePolicy::FailFast,
            r#"{"transform": {"y": 10}}"#,
        )],
    };
    let composed = compose(&ast, &registry).unwrap();
    let mut ctx = test_context();
    let result = run_builtin(&composed, &registry, &mut ctx).unwrap();

    assert_eq!(result.output.len(), 2);
    assert_eq!(result.output[0].payload, j(r#"{"x": 1, "y": 10}"#));
    assert_eq!(result.output[1].payload, j(r#"{"x": 2, "y": 10}"#));
}

#[test]
fn run_run_filter_executor_real() {
    filter_executor_real();
}

#[test]
fn executor_run_filter_executor_real() {
    filter_executor_real();
}

#[test]
fn run_run_map_executor_real() {
    map_executor_real();
}

#[test]
fn executor_run_map_executor_real() {
    map_executor_real();
}

// ---------------------------------------------------------------------------
// DAG runs
// ---------------------------------------------------------------------------

const MANY: TypedFrame = (FrameType::JsonValue, Cardinality::Many);
const ONE: TypedFrame = (FrameType::JsonValue, Cardinality::One);

fn make_dag_step(
    step_id: &str,
    kind: DagNodeKind,
    command_id: &str,
    args: &str,
    frame: TypedFrame,
    predecessors: Vec<&str>,
    successors: Vec<&str>,
) -> DagStep {
    DagStep {
        composed: ComposedStep {
            step_id: step_id.to_string(),
            command_id: command_id.to_string(),
            input_type: frame,
            output_type: frame,
            input_binding: InputBinding::PreviousStep,
            failure_policy: FailurePolicy::FailFast,
            side_effect_level: SideEffectLevel::NoEffect,
            args: j(args),
        },
        kind,
        predecessors: predecessors.into_iter().map(|s| s.to_string()).collect(),
        successors: successors.into_iter().map(|s| s.to_string()).collect(),
    }
}

fn dag(pipeline_id: &str, steps: Vec<DagStep>, frame: TypedFrame) -> DagPipeline {
    DagPipeline { pipeline_id: pipeline_id.to_string(), steps, input_type: frame, output_type: frame }
}

fn run_builtin_dag(dag: &DagPipeline, input: &str) -> seaki::pipe::run::RunResult {
    let registry = CommandRegistry::builtin();
    let mut ctx = test_context();
    let executors = builtin_executors();
    run_dag(dag, j(input), &registry, &executors, &SimplePolicy, &mut ctx).unwrap()
}

fn tee_executes_both_branches() {
    let d = dag(
        "tee_test",
        vec![
            make_dag_step("A", DagNodeKind::Command, "map", r#"{"transform": {"src": "A"}}"#, MANY, vec!["entry"], vec!["tee"]),
            make_dag_step("tee", DagNodeKind::Tee, "", "{}", MANY, vec!["A"], vec!["B", "C"]),
            make_dag_step("B", DagNodeKind::Command, "map", r#"{"transform": {"src": "B"}}"#, MANY, vec!["tee"], vec!["join"]),
            make_dag_step("C", DagNodeKind::Command, "map", r#"{"transform": {"src": "C"}}"#, MANY, vec!["tee"], vec!["join"]),
            make_dag_step(
                "join",
                DagNodeKind::Join { strategy: DagMergeStrategy::Concat },
                "",
                "{}",
                MANY,
                vec!["B", "C"],
                vec!["exit"],
            ),
            make_dag_step("exit", DagNodeKind::Exit, "", "{}", MANY, vec!["join"], vec![]),
        ],
        MANY,
    );
    let result = run_builtin_dag(&d, r#"[{"x": 1}, {"x": 2}]"#);

    assert_eq!(result.output.len(), 4);
    assert_eq!(result.output[0].payload, j(r#"{"x": 1, "src": "B"}"#));
    assert_eq!(result.output[1].payload, j(r#"{"x": 2, "src": "B"}"#));
    assert_eq!(result.output[2].payload, j(r#"{"x": 1, "src": "C"}"#));
    assert_eq!(result.output[3].payload, j(r#"{"x": 2, "src": "C"}"#));
}

fn branch_conditional() {
    let d = dag(
        "branch_test",
        vec![
            make_dag_step("A", DagNodeKind::Command, "map", r#"{"transform": {"tag": "A"}}"#, MANY, vec!["entry"], vec!["branch"]),
            make_dag_step(
                "branch",
                DagNodeKind::Branch,
                "",
                r#"{
                    "branches": [
                        {"target": "B", "name": "left"},
                        {"target": "C", "name": "right"}
                    ],
                    "route": "left"
                }"#,
                MANY,
                vec!["A"],
                vec!["B", "C"],
            ),
            make_dag_step("B", DagNodeKind::Command, "map", r#"{"transform": {"branch": "B"}}"#, MANY, vec!["branch"], vec!["exit"]),
            make_dag_step("C", DagNodeKind::Command, "map", r#"{"transform": {"branch": "C"}}"#, MANY, vec!["branch"], vec!["exit"]),
            make_dag_step("exit", DagNodeKind::Exit, "", "{}", MANY, vec!["B", "C"], vec![]),
        ],
        MANY,
    );
    let result = run_builtin_dag(&d, r#"[{"x": 1}]"#);

    assert_eq!(result.output.len(), 1);
    assert_eq!(result.output[0].payload, j(r#"{"x": 1, "tag": "A", "branch": "B"}"#));
}

fn join_dag(pipeline_id: &str, b_pred: &str, c_pred: &str, strategy: DagMergeStrategy) -> DagPipeline {
    dag(
        pipeline_id,
        vec![
            make_dag_step("A", DagNodeKind::Command, "map", r#"{"transform": {"src": "A"}}"#, MANY, vec!["entry"], vec!["tee"]),
            make_dag_step("tee", DagNodeKind::Tee, "", "{}", MANY, vec!["A"], vec!["B", "C"]),
            make_dag_step("B", DagNodeKind::Command, "filter", b_pred, MANY, vec!["tee"], vec!["join"]),
            make_dag_step("C", DagNodeKind::Command, "filter", c_pred, MANY, vec!["tee"], vec!["join"]),
            make_dag_step("join", DagNodeKind::Join { strategy }, "", "{}", MANY, vec!["B", "C"], vec!["exit"]),
            make_dag_step("exit", DagNodeKind::Exit, "", "{}", MANY, vec!["join"], vec![]),
        ],
        MANY,
    )
}

fn join_concat() {
    let d = join_dag("join_concat", r#"{"predicate": {"x": 1}}"#, r#"{"predicate": {"x": 2}}"#, DagMergeStrategy::Concat);
    let result = run_builtin_dag(&d, r#"[{"x": 1}, {"x": 2}]"#);

    assert_eq!(result.output.len(), 2);
    assert_eq!(result.output[0].payload, j(r#"{"x": 1, "src": "A"}"#));
    assert_eq!(result.output[1].payload, j(r#"{"x": 2, "src": "A"}"#));
}

fn join_first_non_empty() {
    let d = join_dag(
        "join_first",
        r#"{"predicate": {"x": 1}}"#,
        r#"{"predicate": {"x": 99}}"#,
        DagMergeStrategy::FirstNonEmpty,
    );
    let result = run_builtin_dag(&d, r#"[{"x": 1}, {"x": 2}]"#);

    assert_eq!(result.output.len(), 1);
    assert_eq!(result.output[0].payload, j(r#"{"x": 1, "src": "A"}"#));
}

fn complex_mixed() {
    let d = dag(
        "complex",
        vec![
            make_dag_step("A", DagNodeKind::Command, "map", r#"{"transform": {"stage": "A"}}"#, MANY, vec!["entry"], vec!["tee"]),
            make_dag_step("tee", DagNodeKind::Tee, "", "{}", MANY, vec!["A"], vec!["B", "branch"]),
            make_dag_step("B", DagNodeKind::Command, "filter", r#"{"predicate": {"stage": "A"}}"#, MANY, vec!["tee"], vec!["join"]),
            make_dag_step(
                "branch",
                DagNodeKind::Branch,
                "",
                r#"{
                    "branches": [
                        {"target": "C", "name": "c_path"},
                        {"target": "D", "name": "d_path"}
                    ],
                    "route": "c_path"
                }"#,
                MANY,
                vec!["tee"],
                vec!["C", "D"],
            ),
            make_dag_step("C", DagNodeKind::Command, "map", r#"{"transform": {"stage": "C"}}"#, MANY, vec!["branch"], vec!["join"]),
            make_dag_step("D", DagNodeKind::Command, "map", r#"{"transform": {"stage": "D"}}"#, MANY, vec!["branch"], vec!["join"]),
            make_dag_step(
                "join",
                DagNodeKind::Join { strategy: DagMergeStrategy::Concat },
                "",
                "{}",
                MANY,
                vec!["B", "C"],
                vec!["exit"],
            ),
            make_dag_step("exit", DagNodeKind::Exit, "", "{}", MANY, vec!["join"], vec![]),
        ],
        MANY,
    );
    let result = run_builtin_dag(&d, r#"[{"x": 1}, {"x": 2}]"#);

    assert_eq!(result.output.len(), 4);
    assert_eq!(result.output[0].payload, j(r#"{"x": 1, "stage": "A"}"#));
    assert_eq!(result.output[1].payload, j(r#"{"x": 2, "stage": "A"}"#));
    assert_eq!(result.output[2].payload, j(r#"{"x": 1, "stage": "C"}"#));
    assert_eq!(result.output[3].payload, j(r#"{"x": 2, "stage": "C"}"#));
}

#[test]
fn run_dag_tee_executes_both_branches() {
    tee_executes_both_branches();
}

#[test]
fn dag_dag_tee_executes_both_branches() {
    tee_executes_both_branches();
}

#[test]
fn run_dag_branch_conditional() {
    branch_conditional();
}

#[test]
fn dag_dag_branch_conditional() {
    branch_conditional();
}

#[test]
fn run_dag_join_concat() {
    join_concat();
}

#[test]
fn dag_dag_join_concat() {
    join_concat();
}

#[test]
fn run_dag_join_first_non_empty() {
    join_first_non_empty();
}

#[test]
fn dag_dag_join_first_non_empty() {
    join_first_non_empty();
}

#[test]
fn run_dag_complex_mixed() {
    complex_mixed();
}

#[test]
fn dag_dag_complex_mixed() {
    complex_mixed();
}

// ---------------------------------------------------------------------------
// Checkpoints, resume, retry
// ---------------------------------------------------------------------------

fn two_map_steps(pipeline_id: &str) -> DagPipeline {
    dag(
        pipeline_id,
        vec![
            make_dag_step("s1", DagNodeKind::Command, "map", r#"{"transform": {"a": 1}}"#, MANY, vec!["entry"], vec!["s2"]),
            make_dag_step("s2", DagNodeKind::Command, "map", r#"{"transform": {"b": 2}}"#, MANY, vec!["s1"], vec!["exit"]),
            make_dag_step("exit", DagNodeKind::Exit, "", "{}", MANY, vec!["s2"], vec![]),
        ],
        MANY,
    )
}

fn checkpoint_saves_after_each_step() {
    let d = two_map_steps("chk");
    let registry = CommandRegistry::builtin();
    let mut ctx = test_context();
    let executors = builtin_executors();
    let mut store = InMemoryCheckpointStore::new();

    let result = run_dag_with_checkpoint(
        &d,
        j(r#"[{"x": 1}]"#),
        &registry,
        &executors,
        &SimplePolicy,
        &mut ctx,
        &mut store,
        None,
        &mut NoWait,
    )
    .unwrap();

    assert_eq!(result.output.len(), 1);

    let checkpoints = store.load_all("chk").unwrap();
    assert_eq!(checkpoints.len(), 3);
    assert_eq!(checkpoints[0].step_id, "s1");
    assert_eq!(checkpoints[1].step_id, "s2");
    assert_eq!(checkpoints[2].step_id, "exit");
}

fn resume_skips_completed_steps() {
    let d = two_map_steps("res");
    let mut store = InMemoryCheckpointStore::new();
    let cp1 = Checkpoint {
        pipeline_id: "res".to_string(),
        step_id: "s1".to_string(),
        output_frames: vec![FrameEnvelope {
            seq: 0,
            step_id: "s1".to_string(),
            frame_type: FrameType::JsonValue,
            payload: j(r#"{"x": 1, "a": 1}"#),
        }],
        step_state: StepState::Completed,
        resource_used: ResourceUsage { cpu_ms: 10, memory_mb: 0, frame_count: 1 },
        timestamp_ms: 1,
    };
    store.save(&cp1).unwrap();

    let registry = CommandRegistry::builtin();
    let mut ctx = test_context();
    let executors = builtin_executors();
    let result =
        resume_dag(&d, &mut store, j(r#"[{"x": 1}]"#), &registry, &executors, &SimplePolicy, &mut ctx).unwrap();

    assert_eq!(result.output.len(), 1);
    assert_eq!(result.output[0].payload, j(r#"{"x": 1, "a": 1, "b": 2}"#));
}

fn resume_updates_resource_usage() {
    let d = dag(
        "res",
        vec![
            make_dag_step("s1", DagNodeKind::Command, "map", r#"{"transform": {"a": 1}}"#, MANY, vec!["entry"], vec!["exit"]),
            make_dag_step("exit", DagNodeKind::Exit, "", "{}", MANY, vec!["s1"], vec![]),
        ],
        MANY,
    );
    let mut store = InMemoryCheckpointStore::new();
    let cp1 = Checkpoint {
        pipeline_id: "res".to_string(),
        step_id: "s1".to_string(),
        output_frames: vec![],
        step_state: StepState::Completed,
        resource_used: ResourceUsage { cpu_ms: 42, memory_mb: 5, frame_count: 3 },
        timestamp_ms: 1,
    };
    store.save(&cp1).unwrap();

    let registry = CommandRegistry::builtin();
    let mut ctx = test_context();
    let executors = builtin_executors();
    resume_dag(&d, &mut store, j(r#"[{"x": 1}]"#), &registry, &executors, &SimplePolicy, &mut ctx).unwrap();

    assert_eq!(ctx.resource_used.cpu_ms, 42);
    assert_eq!(ctx.resource_used.memory_mb, 5);
    assert_eq!(ctx.resource_used.frame_count, 3);
}

fn single_step_dag(command_id: &str) -> DagPipeline {
    dag(
        "retry",
        vec![
            make_dag_step("s1", DagNodeKind::Command, command_id, "{}", ONE, vec!["entry"], vec!["exit"]),
            make_dag_step("exit", DagNodeKind::Exit, "", "{}", ONE, vec!["s1"], vec![]),
        ],
        ONE,
    )
}

fn retry_recoverable_error() {
    let d = single_step_dag("flaky");
    let mut registry = CommandRegistry::new();
    registry.register(manifest("flaky", "flaky", r#"{"type": "object"}"#, ONE)).unwrap();

    let mut ctx = test_context();
    let executors = vec![("flaky".to_string(), TestExec::Flaky(FlakyExecutor { fail_count: AtomicUsize::new(2) }))];
    let retry_policy = RetryPolicy { max_attempts: 3, backoff_ms: 0 };
    let result = run_dag_with_checkpoint(
        &d,
        j(r#"{"x": 1}"#),
        &registry,
        &executors,
        &SimplePolicy,
        &mut ctx,
        &mut InMemoryCheckpointStore::new(),
        Some(retry_policy),
        &mut NoWait,
    )
    .unwrap();

    assert_eq!(result.output.len(), 1);
    assert_eq!(result.output[0].payload, j(r#"{"recovered": true}"#));
}

fn retry_exhausted_returns_last_error() {
    let d = single_step_dag("always_retryable");
    let mut registry = CommandRegistry::new();
    registry
        .register(manifest("always_retryable", "always fails retryable", r#"{"type": "object"}"#, ONE))
        .unwrap();

    let mut ctx = test_context();
    let executors = vec![("always_retryable".to_string(), TestExec::AlwaysRetryable(AlwaysRetryableExecutor))];
    let retry_policy = RetryPolicy { max_attempts: 3, backoff_ms: 0 };
    let result = run_dag_with_checkpoint(
        &d,
        j(r#"{"x": 1}"#),
        &registry,
        &executors,
        &SimplePolicy,
        &mut ctx,
        &mut InMemoryCheckpointStore::new(),
        Some(retry_policy),
        &mut NoWait,
    );

    assert!(result.is_err());
    let err = result.unwrap_err();
    assert!(err.retryable);
    assert_eq!(err.failed_step_id, "s1");
    assert!(matches!(err.error_kind, ErrorKind::QuotaExceeded));
}

fn retry_non_retryable_no_retry() {
    let d = single_step_dag("failing");
    let registry = registry_with_failing();
    let mut ctx = test_context();
    let executors = vec![("failing".to_string(), FailingExecutor)];
    let retry_policy = RetryPolicy { max_attempts: 3, backoff_ms: 0 };
    let result = run_dag_with_checkpoint(
        &d,
        j(r#"{"x": 1}"#),
        &registry,
        &executors,
        &SimplePolicy,
        &mut ctx,
        &mut InMemoryCheckpointStore::new(),
        Some(retry_policy),
        &mut NoWait,
    );

    assert!(result.is_err());
    let err = result.unwrap_err();
    assert!(!err.retryable);
    assert_eq!(err.failed_step_id, "s1");
}

#[test]
fn run_checkpoint_saves_after_each_step() {
    checkpoint_saves_after_each_step();
}

#[test]
fn checkpoint_checkpoint_saves_after_each_step() {
    checkpoint_saves_after_each_step();
}

#[test]
fn run_resume_skips_completed_steps() {
    resume_skips_completed_steps();
}

#[test]
fn checkpoint_resume_skips_completed_steps() {
    resume_skips_completed_steps();
}

#[test]
fn run_resume_updates_resource_usage() {
    resume_updates_resource_usage();
}

#[test]
fn checkpoint_resume_updates_resource_usage() {
    resume_updates_resource_usage();
}

#[test]
fn run_retry_recoverable_error() {
    retry_recoverable_error();
}

#[test]
fn checkpoint_retry_recoverable_error() {
    retry_recoverable_error();
}

#[test]
fn run_retry_exhausted_returns_last_error() {
    retry_exhausted_returns_last_error();
}

#[test]
fn checkpoint_retry_exhausted_returns_last_error() {
    retry_exhausted_returns_last_error();
}

#[test]
fn run_retry_non_retryable_no_retry() {
    retry_non_retryable_no_retry();
}

#[test]
fn checkpoint_retry_non_retryable_no_retry() {
    retry_non_retryable_no_retry();
}

// ---------------------------------------------------------------------------
// Rollback
// ---------------------------------------------------------------------------

fn rollback_calls_compensate_in_reverse_order() {
    let d = two_map_steps("rollback");
    let registry = CommandRegistry::builtin();
    let mut ctx = test_context();
    let executors = builtin_executors();
    let mut store = InMemoryCheckpointStore::new();

    run_dag_with_checkpoint(
        &d,
        j(r#"[{"x": 1}]"#),
        &registry,
        &executors,
        &SimplePolicy,
        &mut ctx,
        &mut store,
        None,
        &mut NoWait,
    )
    .unwrap();

    let mut ctx2 = test_context();
    let compensators = vec![("map".to_string(), TestCompensator::Mapping(CompensatingMapExecutor))];
    let records = rollback_dag(&d, &store, &registry, &compensators, &mut ctx2).unwrap();

    assert_eq!(records.len(), 2);
    assert_eq!(records[0].step_id, "s2");
    assert!(records[0].success);
    assert_eq!(records[1].step_id, "s1");
    assert!(records[1].success);
}

fn rollback_continues_on_compensation_failure() {
    let d = dag(
        "rollback",
        vec![
            make_dag_step("s1", DagNodeKind::Command, "map", r#"{"transform": {"a": 1}}"#, MANY, vec!["entry"], vec!["s2"]),
            make_dag_step(
                "s2",
                DagNodeKind::Command,
                "failing_comp",
                r#"{"transform": {"b": 2}}"#,
                MANY,
                vec!["s1"],
                vec!["exit"],
            ),
            make_dag_step("exit", DagNodeKind::Exit, "", "{}", MANY, vec!["s2"], vec![]),
        ],
        MANY,
    );
    let mut registry = CommandRegistry::builtin();
    registry.register(manifest("failing_comp", "failing compensate", r#"{"type": "array"}"#, MANY)).unwrap();

    let mut ctx = test_context();
    let executors = vec![
        ("map".to_string(), TestExec::Builtin(BuiltinExecutor::MapFrames)),
        ("failing_comp".to_string(), TestExec::FailingCompensate(FailingCompensateExecutor)),
    ];
    let mut store = InMemoryCheckpointStore::new();

    run_dag_with_checkpoint(
        &d,
        j(r#"[{"x": 1}]"#),
        &registry,
        &executors,
        &SimplePolicy,
        &mut ctx,
        &mut store,
        None,
        &mut NoWait,
    )
    .unwrap();

    let mut ctx2 = test_context();
    let compensators = vec![
        ("map".to_string(), TestCompensator::Mapping(CompensatingMapExecutor)),
        ("failing_comp".to_string(), TestCompensator::Failing(FailingCompensateExecutor)),
    ];
    let records = rollback_dag(&d, &store, &registry, &compensators, &mut ctx2).unwrap();

    assert_eq!(records.len(), 2);
    assert_eq!(records[0].step_id, "s2");
    assert!(!records[0].success);
    assert_eq!(records[1].step_id, "s1");
    assert!(records[1].success);
}

#[test]
fn run_rollback_calls_compensate_in_reverse_order() {
    rollback_calls_compensate_in_reverse_order();
}

#[test]
fn compensate_rollback_calls_compensate_in_reverse_order() {
    rollback_calls_compensate_in_reverse_order();
}

#[test]
fn run_rollback_continues_on_compensation_failure() {
    rollback_continues_on_compensation_failure();
}

#[test]
fn compensate_rollback_continues_on_compensation_failure() {
    rollback_continues_on_compensation_failure();
}

// ---------------------------------------------------------------------------
// Approval
// ---------------------------------------------------------------------------

/// Approves once waited on.
struct DelayedApproveGate {
    #[allow(dead_code)]
    delay_ms: u64,
}

impl ApprovalGate for DelayedApproveGate {
    fn ready(&self) -> bool {
        true
    }

    fn request_approval(&mut self, _request: ApprovalRequestInput) -> Result<String, ApprovalGateError> {
        Ok("delayed-approval".to_string())
    }

    fn poll_approval(&self, _approval_id: &str) -> Result<ApprovalStatus, ApprovalGateError> {
        Ok(ApprovalStatus::Pending)
    }

    fn wait_for_approval(&mut self, _approval_id: &str, _timeout_ms: u64) -> Result<ApprovalStatus, ApprovalGateError> {
        Ok(ApprovalStatus::Approved)
    }
}

/// Denies at once.
struct AutoDenyGate;

impl ApprovalGate for AutoDenyGate {
    fn ready(&self) -> bool {
        true
    }

    fn request_approval(&mut self, _request: ApprovalRequestInput) -> Result<String, ApprovalGateError> {
        Ok("auto-deny".to_string())
    }

    fn poll_approval(&self, _approval_id: &str) -> Result<ApprovalStatus, ApprovalGateError> {
        Ok(ApprovalStatus::Denied)
    }

    fn wait_for_approval(&mut self, _approval_id: &str, _timeout_ms: u64) -> Result<ApprovalStatus, ApprovalGateError> {
        Ok(ApprovalStatus::Denied)
    }
}

/// Records which steps it compensated.
#[derive(Clone)]
struct TrackingCompensator {
    compensated: Arc<Mutex<Vec<String>>>,
}

impl TrackingCompensator {
    fn new() -> Self {
        Self { compensated: Arc::new(Mutex::new(Vec::new())) }
    }

    fn compensated_steps(&self) -> Vec<String> {
        self.compensated.lock().unwrap().clone()
    }
}

impl CommandExecutor for TrackingCompensator {
    fn execute(
        &self,
        step: &ComposedStep,
        input: Vec<FrameEnvelope>,
        ctx: &mut ExecutionContext,
    ) -> Result<Vec<FrameEnvelope>, PipelineError> {
        MapExecutor.execute(step, input, ctx)
    }
}

impl CompensatingExecutor for TrackingCompensator {
    fn compensates(
        &self,
        _step: &ComposedStep,
        _executed_output: &[FrameEnvelope],
        _result: &Result<Vec<FrameEnvelope>, PipelineError>,
    ) -> bool {
        true
    }

    fn compensate(
        &self,
        step: &ComposedStep,
        _executed_output: &[FrameEnvelope],
        _ctx: &mut ExecutionContext,
    ) -> Result<Vec<FrameEnvelope>, PipelineError> {
        self.compensated.lock().unwrap().push(step.step_id.clone());
        Ok(Vec::new())
    }
}

fn approval_step(step_id: &str, command_id: &str, level: SideEffectLevel, args: &str, kind: DagNodeKind, pred: &str, succ: Vec<&str>) -> DagStep {
    DagStep {
        composed: ComposedStep {
            step_id: step_id.to_string(),
            command_id: command_id.to_string(),
            input_type: MANY,
            output_type: MANY,
            input_binding: InputBinding::PreviousStep,
            failure_policy: FailurePolicy::FailFast,
            side_effect_level: level,
            args: j(args),
        },
        kind,
        predecessors: vec![pred.to_string()],
        successors: succ.into_iter().map(|s| s.to_string()).collect(),
    }
}

fn approval_dag() -> DagPipeline {
    dag(
        "approval_test",
        vec![
            approval_step("s1", "map", SideEffectLevel::NoEffect, r#"{"transform": {"stage": "s1"}}"#, DagNodeKind::Command, "entry", vec!["s2"]),
            approval_step(
                "s2",
                "needs_approval",
                SideEffectLevel::SideEffect,
                r#"{"transform": {"stage": "s2"}}"#,
                DagNodeKind::Command,
                "s1",
                vec!["exit"],
            ),
            approval_step("exit", "", SideEffectLevel::NoEffect, "{}", DagNodeKind::Exit, "s2", vec![]),
        ],
        MANY,
    )
}

fn approval_registry() -> CommandRegistry {
    let mut registry = CommandRegistry::builtin();
    let mut m = manifest("needs_approval", "needs approval", r#"{"type": "array"}"#, MANY);
    m.side_effect_level = SideEffectLevel::SideEffect;
    m.resource_quota = Some(ResourceQuota { cpu_ms: 10_000, memory_mb: 1_024 });
    registry.register(m).unwrap();
    registry
}

#[test]
fn dag_approval_gate_blocks_and_resumes() {
    let d = approval_dag();
    let registry = approval_registry();
    let mut ctx = test_context();
    let executors = vec![("map".to_string(), MapExecutor), ("needs_approval".to_string(), MapExecutor)];

    let mut gate = DelayedApproveGate { delay_ms: 100 };
    let mut store = InMemoryCheckpointStore::new();
    let compensators: Vec<(String, TrackingCompensator)> = Vec::new();
    let mut sm = PipelineStateMachine::new("approval_test".to_string());

    let result = run_dag_with_approval(
        &d,
        j(r#"[{"x": 1}]"#),
        &registry,
        &executors,
        &SimplePolicy,
        &mut gate,
        &mut store,
        &compensators,
        &mut ctx,
        &mut sm,
    );

    assert!(result.is_ok(), "expected Ok, got {:?}", result);
    let run_result = result.unwrap();
    assert_eq!(run_result.output.len(), 1);
    assert_eq!(run_result.output[0].payload, j(r#"{"x": 1, "stage": "s2"}"#));
    assert_eq!(sm.state, PipelineState::Completed);
}

#[test]
fn dag_approval_denied_triggers_compensate() {
    let d = approval_dag();
    let registry = approval_registry();
    let mut ctx = test_context();
    let executors = vec![("map".to_string(), MapExecutor), ("needs_approval".to_string(), MapExecutor)];

    let mut gate = AutoDenyGate;
    let mut store = InMemoryCheckpointStore::new();
    let tracker = TrackingCompensator::new();
    let compensators = vec![("map".to_string(), TestCompensator::Tracking(tracker.clone()))];
    let mut sm = PipelineStateMachine::new("approval_test".to_string());

    let result = run_dag_with_approval(
        &d,
        j(r#"[{"x": 1}]"#),
        &registry,
        &executors,
        &SimplePolicy,
        &mut gate,
        &mut store,
        &compensators,
        &mut ctx,
        &mut sm,
    );

    assert!(result.is_err());
    assert_eq!(sm.state, PipelineState::Failed);

    let compensated = tracker.compensated_steps();
    assert!(compensated.contains(&"s1".to_string()), "expected s1 to be compensated, got {:?}", compensated);
}
