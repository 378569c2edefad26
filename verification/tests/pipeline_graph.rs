use seaki::pipe::ast::{ComposeError, DagNodeKind, InputBinding};
use seaki::pipe::frame::{Cardinality, FrameType};
use seaki::pipe::registry::{CommandRegistry, PipeCommandManifest, ResourceQuota, SideEffectLevel};
use seaki::pipeline::compiler::{compile, compile_dag, CompileError};
use seaki::pipeline::graph::{BranchCondition, GraphError, MergeStrategy, Node, NodeId, PipelineGraph};
use seaki::pipeline::intent::{IntentParser, MockIntentParser};
use seaki::pipeline::policy::PolicyEstimator;
use serde_json::Value;

fn j(text: &str) -> Value {
    serde_json::from_str(text).unwrap()
}

fn id(s: &str) -> NodeId {
    NodeId::from_str(s)
}

fn entry(g: &mut PipelineGraph) {
    g.add_node(Node::Entry { node_id: id("entry") }).unwrap();
}

fn exit(g: &mut PipelineGraph) {
    g.add_node(Node::Exit { node_id: id("exit") }).unwrap();
}

fn command(g: &mut PipelineGraph, node: &str, command_id: &str, args: &str) {
    g.add_node(Node::Command { node_id: id(node), command_id: command_id.to_string(), args: j(args) }).unwrap();
}

fn edge(g: &mut PipelineGraph, from: &str, to: &str) {
    g.add_edge(id(from), id(to)).unwrap();
}

fn ends(g: &mut PipelineGraph) {
    g.set_entry(id("entry")).unwrap();
    g.add_exit(id("exit")).unwrap();
}

// ---------------------------------------------------------------------------
// Graph
// ---------------------------------------------------------------------------

#[test]
fn graph_linear_chain_validates() {
    let mut graph = PipelineGraph::new("test_linear".to_string());
    entry(&mut graph);
    command(&mut graph, "search", "wiki.search", "{}");
    exit(&mut graph);
    ends(&mut graph);
    edge(&mut graph, "entry", "search");
    edge(&mut graph, "search", "exit");

    assert!(graph.validate().is_ok());
}

#[test]
fn graph_detects_cycle() {
    let mut graph = PipelineGraph::new("test_cycle".to_string());
    entry(&mut graph);
    command(&mut graph, "a", "wiki.search", "{}");
    command(&mut graph, "b", "citation.resolve", "{}");
    exit(&mut graph);
    ends(&mut graph);
    edge(&mut graph, "entry", "a");
    edge(&mut graph, "a", "b");
    edge(&mut graph, "b", "a");

    let result = graph.validate();
    assert!(matches!(result, Err(GraphError::CycleDetected)));
}

#[test]
fn graph_rejects_duplicate_node_id() {
    let mut graph = PipelineGraph::new("test_dup".to_string());
    entry(&mut graph);
    let result = graph.add_node(Node::Entry { node_id: id("entry") });
    assert!(matches!(result, Err(GraphError::DuplicateNodeId(_))));
}

#[test]
fn graph_rejects_dangling_edge() {
    let mut graph = PipelineGraph::new("test_dangling".to_string());
    entry(&mut graph);
    let result = graph.add_edge(id("entry"), id("ghost"));
    assert!(matches!(result, Err(GraphError::NodeNotFound(_))));
}

#[test]
fn graph_to_linear_ast_produces_steps() {
    let mut graph = PipelineGraph::new("test_linear_ast".to_string());
    entry(&mut graph);
    command(&mut graph, "search", "wiki.search", r#"{"keyword": "test"}"#);
    command(&mut graph, "resolve", "citation.resolve", "{}");
    exit(&mut graph);
    ends(&mut graph);
    edge(&mut graph, "entry", "search");
    edge(&mut graph, "search", "resolve");
    edge(&mut graph, "resolve", "exit");

    let ast = graph.to_linear_ast().unwrap();
    assert_eq!(ast.steps.len(), 2);
    assert_eq!(ast.steps[0].command_id, "wiki.search");
    assert_eq!(ast.steps[1].command_id, "citation.resolve");
    assert!(matches!(ast.steps[0].input_binding, InputBinding::Constant(_)));
    assert!(matches!(ast.steps[1].input_binding, InputBinding::PreviousStep));
}

#[test]
fn graph_to_linear_ast_refuses_a_cycle() {
    let mut graph = PipelineGraph::new("loop".to_string());
    entry(&mut graph);
    command(&mut graph, "a", "wiki.search", "{}");
    command(&mut graph, "b", "citation.resolve", "{}");
    exit(&mut graph);
    ends(&mut graph);
    edge(&mut graph, "entry", "a");
    edge(&mut graph, "a", "b");
    edge(&mut graph, "b", "a");
    assert!(matches!(graph.to_linear_ast(), Err(GraphError::CycleDetected)));
}

// ---------------------------------------------------------------------------
// Compiler
// ---------------------------------------------------------------------------

#[test]
fn schema_hash_is_deterministic() {
    let input = j(r#"{ "type": "object", "properties": { "name": { "type": "string" } } }"#);
    let output = j(r#"{ "type": "string" }"#);

    let hash1 = PipeCommandManifest::compute_schema_hash(&input, &output);
    let hash2 = PipeCommandManifest::compute_schema_hash(&input, &output);
    assert_eq!(hash1, hash2, "same schema should produce identical hash");
    assert_eq!(hash1.len(), 64);
}

#[test]
fn compiler_reuses_cached_manifest() {
    let registry = CommandRegistry::builtin();
    let parser = MockIntentParser::new();
    let graph = parser.parse("search and summarize").unwrap();

    let result = compile(&graph, &registry).unwrap();

    assert!(!result.command_schema_hashes.is_empty());
    for (command_id, hash) in &result.command_schema_hashes {
        let manifest = registry.inspect(command_id).unwrap();
        assert_eq!(*hash, manifest.schema_hash);
    }
}

#[test]
fn compiler_accepts_valid_linear_pipeline() {
    let registry = CommandRegistry::builtin();
    let parser = MockIntentParser::new();
    let graph = parser.parse("search and summarize").unwrap();

    let result = compile(&graph, &registry).unwrap();
    assert_eq!(result.graph_id, "search_and_summarize");
    assert_eq!(result.linear_steps.len(), 3);
    assert_eq!(result.linear_steps[0].command_id, "wiki.search");
    assert_eq!(result.linear_steps[1].command_id, "citation.resolve");
    assert_eq!(result.linear_steps[2].command_id, "adr.summarize");
    assert_eq!(result.input_type.0, FrameType::JsonValue);
    assert_eq!(result.output_type.0, FrameType::TextAnswer);
}

#[test]
fn compiler_rejects_unknown_command() {
    let registry = CommandRegistry::builtin();
    let mut graph = PipelineGraph::new("test_unknown".to_string());
    entry(&mut graph);
    command(&mut graph, "bad", "unknown.command", "{}");
    exit(&mut graph);
    ends(&mut graph);
    edge(&mut graph, "entry", "bad");
    edge(&mut graph, "bad", "exit");

    let result = compile(&graph, &registry);
    assert!(
        matches!(result, Err(CompileError::Compose(ComposeError::CommandNotFound(id))) if id == "unknown.command")
    );
}

#[test]
fn compiler_rejects_type_mismatch() {
    let registry = CommandRegistry::builtin();
    let mut graph = PipelineGraph::new("test_mismatch".to_string());
    entry(&mut graph);
    command(&mut graph, "search", "wiki.search", r#"{"keyword": "test"}"#);
    command(&mut graph, "summarize", "adr.summarize", "{}");
    exit(&mut graph);
    ends(&mut graph);
    edge(&mut graph, "entry", "search");
    edge(&mut graph, "search", "summarize");
    edge(&mut graph, "summarize", "exit");

    let result = compile(&graph, &registry);
    assert!(
        matches!(result, Err(CompileError::Compose(ComposeError::TypeMismatch { ref step_id, .. })) if step_id == "summarize"),
        "expected type mismatch, got {:?}",
        result
    );
}

#[test]
fn compiler_rejects_cardinality_conflict() {
    let mut graph = PipelineGraph::new("test_cardinality".to_string());
    entry(&mut graph);
    command(&mut graph, "search", "wiki.search", r#"{"keyword": "test"}"#);
    command(&mut graph, "consume_one", "consume_one", "{}");
    exit(&mut graph);
    ends(&mut graph);
    edge(&mut graph, "entry", "search");
    edge(&mut graph, "search", "consume_one");
    edge(&mut graph, "consume_one", "exit");

    let mut registry = CommandRegistry::builtin();
    registry
        .register(PipeCommandManifest {
            command_id: "consume_one".to_string(),
            description: "consumes one value".to_string(),
            input_schema: j(r#"{ "type": "object" }"#),
            output_schema: j(r#"{ "type": "object" }"#),
            input_frame: (FrameType::JsonValue, Cardinality::One),
            output_frame: (FrameType::JsonValue, Cardinality::One),
            side_effect_level: SideEffectLevel::NoEffect,
            resource_quota: Some(ResourceQuota { cpu_ms: 10, memory_mb: 8 }),
            schema_hash: PipeCommandManifest::compute_schema_hash(&j(r#"{ "type": "object" }"#), &j(r#"{ "type": "object" }"#)),
        })
        .unwrap();

    let result = compile(&graph, &registry);
    assert!(result.is_err());
}

#[test]
fn compiler_rejects_empty_pipeline() {
    let registry = CommandRegistry::builtin();
    let mut graph = PipelineGraph::new("test_empty".to_string());
    entry(&mut graph);
    exit(&mut graph);
    ends(&mut graph);
    edge(&mut graph, "entry", "exit");

    let result = compile(&graph, &registry);
    assert!(matches!(result, Err(CompileError::EmptyPipeline)));
}

#[test]
fn compile_dag_with_tee_branch_join() {
    let registry = CommandRegistry::builtin();
    let mut graph = PipelineGraph::new("test_dag".to_string());

    entry(&mut graph);
    command(&mut graph, "search", "wiki.search", r#"{"keyword": "test"}"#);
    graph.add_node(Node::Tee { node_id: id("tee"), branches: vec![id("filter"), id("map")] }).unwrap();
    command(&mut graph, "filter", "filter", "{}");
    graph
        .add_node(Node::Branch {
            node_id: id("branch"),
            condition: BranchCondition::FrameType,
            branches: vec![(id("map"), j(r#"{"type": "A"}"#)), (id("filter"), j(r#"{"type": "B"}"#))],
        })
        .unwrap();
    command(&mut graph, "map", "map", "{}");
    graph
        .add_node(Node::Join {
            node_id: id("join"),
            sources: vec![id("filter"), id("map")],
            merge_strategy: MergeStrategy::Concat,
        })
        .unwrap();
    exit(&mut graph);
    ends(&mut graph);

    edge(&mut graph, "entry", "search");
    edge(&mut graph, "search", "tee");
    edge(&mut graph, "tee", "filter");
    edge(&mut graph, "tee", "branch");
    edge(&mut graph, "filter", "join");
    edge(&mut graph, "branch", "map");
    edge(&mut graph, "map", "join");
    edge(&mut graph, "join", "exit");

    let dag = compile_dag(&graph, &registry).unwrap();

    assert_eq!(dag.pipeline_id, "test_dag");
    assert_eq!(dag.steps.len(), 7, "expected 7 DAG steps, got {}", dag.steps.len());

    let kinds: Vec<_> = dag.steps.iter().map(|s| &s.kind).collect();
    assert!(kinds.iter().any(|k| matches!(k, DagNodeKind::Tee)));
    assert!(kinds.iter().any(|k| matches!(k, DagNodeKind::Branch)));
    assert!(kinds.iter().any(|k| matches!(k, DagNodeKind::Join { .. })), "expected Join kind in steps");

    let tee_step = dag.steps.iter().find(|s| s.composed.step_id == "tee").unwrap();
    assert_eq!(tee_step.predecessors, vec!["search"]);
    assert_eq!(tee_step.successors.len(), 2);

    let join_step = dag.steps.iter().find(|s| s.composed.step_id == "join").unwrap();
    assert_eq!(join_step.successors, vec!["exit"]);
    assert_eq!(join_step.predecessors.len(), 2);
}

// ---------------------------------------------------------------------------
// Policy estimates
// ---------------------------------------------------------------------------

fn caps(list: &[&str]) -> Vec<String> {
    list.iter().map(|s| s.to_string()).collect()
}

#[test]
fn policy_estimator_flags_approval_for_side_effect() {
    let registry = CommandRegistry::builtin();
    let graph = MockIntentParser::new().parse("propose a patch").unwrap();
    let compiled = compile(&graph, &registry).unwrap();
    let estimator = PolicyEstimator::new();
    let held = caps(&["pipe.command.wiki.search", "pipe.command.citation.resolve", "pipe.command.wiki.patch.propose"]);
    let estimate = estimator.estimate(&compiled, &held);

    assert!(estimate.requires_approval);
    assert_eq!(estimate.max_side_effect, SideEffectLevel::ProposalOnly);
    assert!(estimate.required_capabilities.contains(&"pipe.command.wiki.patch.propose".to_string()));
    assert!(estimate.missing_capabilities.is_empty());
}

#[test]
fn policy_estimator_no_approval_for_readonly_when_actor_has_all_caps() {
    let registry = CommandRegistry::builtin();
    let graph = MockIntentParser::new().parse("search wiki").unwrap();
    let compiled = compile(&graph, &registry).unwrap();
    let estimator = PolicyEstimator::new();
    let estimate = estimator.estimate(&compiled, &caps(&["pipe.command.wiki.search"]));

    assert!(!estimate.requires_approval);
    assert_eq!(estimate.max_side_effect, SideEffectLevel::NoEffect);
    assert!(estimate.missing_capabilities.is_empty());
}

#[test]
fn policy_estimator_flags_approval_when_actor_missing_capability() {
    let registry = CommandRegistry::builtin();
    let graph = MockIntentParser::new().parse("search wiki").unwrap();
    let compiled = compile(&graph, &registry).unwrap();
    let estimator = PolicyEstimator::new();
    let estimate = estimator.estimate(&compiled, &Vec::new());

    assert!(estimate.requires_approval);
    assert_eq!(estimate.max_side_effect, SideEffectLevel::NoEffect);
    assert_eq!(estimate.missing_capabilities, vec!["pipe.command.wiki.search".to_string()]);
}

#[test]
fn policy_estimator_flags_approval_for_side_effect_even_with_caps() {
    let registry = CommandRegistry::builtin();
    let graph = MockIntentParser::new().parse("propose a patch").unwrap();
    let compiled = compile(&graph, &registry).unwrap();
    let estimator = PolicyEstimator::new();
    let held = caps(&["pipe.command.wiki.search", "pipe.command.citation.resolve", "pipe.command.wiki.patch.propose"]);
    let estimate = estimator.estimate(&compiled, &held);

    assert!(estimate.requires_approval);
    assert_eq!(estimate.max_side_effect, SideEffectLevel::ProposalOnly);
    assert!(estimate.missing_capabilities.is_empty());
}
