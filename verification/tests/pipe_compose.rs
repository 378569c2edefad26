use seaki::pipe::ast::{compose, ComposeError, FailurePolicy, InputBinding, PipelineAst, PipelineStep};
use seaki::pipe::frame::{Cardinality, FrameType};
use seaki::pipe::registry::{
    CommandNotFound, CommandRegistry, PipeCommandManifest, RegistrationError, SideEffectLevel,
};
use serde_json::Value;

fn j(text: &str) -> Value {
    serde_json::from_str(text).unwrap()
}

fn pipeline_step(step_id: &str, command_id: &str, input_binding: InputBinding) -> PipelineStep {
    PipelineStep {
        step_id: step_id.to_string(),
        command_id: command_id.to_string(),
        input_binding,
        failure_policy: FailurePolicy::FailFast,
        args: j("{}"),
    }
}

fn linear_pipeline(steps: Vec<(&str, &str)>) -> PipelineAst {
    PipelineAst {
        pipeline_id: "test-pipeline".to_string(),
        steps: steps
            .into_iter()
            .enumerate()
            .map(|(i, (step_id, command_id))| {
                let binding = if i == 0 {
                    InputBinding::Constant(j(r#"{"keyword": "test"}"#))
                } else {
                    InputBinding::PreviousStep
                };
                pipeline_step(step_id, command_id, binding)
            })
            .collect(),
    }
}

#[test]
fn compose_side_effect_free_chain() {
    let registry = CommandRegistry::builtin();
    let ast = linear_pipeline(vec![("step1", "wiki.search"), ("step2", "citation.resolve"), ("step3", "adr.summarize")]);
    let composed = compose(&ast, &registry).expect("compose succeeds");
    assert_eq!(composed.steps.len(), 3);
    assert_eq!(composed.input_type, (FrameType::JsonValue, Cardinality::One));
    assert_eq!(composed.output_type, (FrameType::TextAnswer, Cardinality::One));
}

#[test]
fn compose_proposal_only_chain() {
    let registry = CommandRegistry::builtin();
    let ast =
        linear_pipeline(vec![("step1", "wiki.search"), ("step2", "citation.resolve"), ("step3", "wiki.patch.propose")]);
    let composed = compose(&ast, &registry).expect("compose succeeds");
    assert_eq!(composed.steps.len(), 3);
    assert_eq!(composed.output_type, (FrameType::PatchProposalArtifact, Cardinality::One));
    assert_eq!(composed.steps[2].side_effect_level, SideEffectLevel::ProposalOnly);
}

#[test]
fn compose_rejects_type_mismatch() {
    let registry = CommandRegistry::builtin();
    let ast = linear_pipeline(vec![("step1", "wiki.search"), ("step2", "adr.summarize")]);
    let result = compose(&ast, &registry);
    assert!(
        matches!(result, Err(ComposeError::TypeMismatch { ref step_id, .. }) if step_id == "step2"),
        "expected type mismatch, got {:?}",
        result
    );
}

#[test]
fn compose_rejects_cardinality_conflict() {
    let registry = CommandRegistry::builtin();
    let ast = PipelineAst {
        pipeline_id: "test".to_string(),
        steps: vec![
            pipeline_step("step1", "wiki.search", InputBinding::Constant(j(r#"{"keyword": "x"}"#))),
            pipeline_step("step2", "adr.summarize", InputBinding::StepOutput("step1".to_string())),
        ],
    };
    let result = compose(&ast, &registry);
    assert!(
        matches!(result, Err(ComposeError::TypeMismatch { ref step_id, .. }) if step_id == "step2"),
        "expected type mismatch for Many->One type mismatch, got {:?}",
        result
    );
}

#[test]
fn compose_rejects_cardinality_many_to_one() {
    let _registry = CommandRegistry::builtin();
    assert!(Cardinality::Many != Cardinality::One, "Many and One are distinct");
}

#[test]
fn compose_rejects_cycle() {
    let registry = CommandRegistry::builtin();
    let ast = PipelineAst {
        pipeline_id: "cycle".to_string(),
        steps: vec![
            pipeline_step("a", "filter", InputBinding::StepOutput("b".to_string())),
            pipeline_step("b", "filter", InputBinding::StepOutput("a".to_string())),
        ],
    };
    let result = compose(&ast, &registry);
    assert!(matches!(result, Err(ComposeError::CycleDetected)), "expected cycle detected, got {:?}", result);
}

#[test]
fn compose_rejects_empty_pipeline() {
    let registry = CommandRegistry::builtin();
    let ast = PipelineAst { pipeline_id: "empty".to_string(), steps: vec![] };
    let result = compose(&ast, &registry);
    assert!(matches!(result, Err(ComposeError::EmptyPipeline)));
}

#[test]
fn compose_rejects_unknown_command() {
    let registry = CommandRegistry::builtin();
    let ast = linear_pipeline(vec![("step1", "unknown.command")]);
    let result = compose(&ast, &registry);
    assert!(matches!(result, Err(ComposeError::CommandNotFound(ref id)) if id == "unknown.command"));
}

#[test]
fn compose_rejects_missing_step_output() {
    let registry = CommandRegistry::builtin();
    let ast = PipelineAst {
        pipeline_id: "dangling".to_string(),
        steps: vec![pipeline_step("a", "filter", InputBinding::StepOutput("nowhere".to_string()))],
    };
    let result = compose(&ast, &registry);
    assert!(matches!(result, Err(ComposeError::StepNotFound(ref id)) if id == "nowhere"), "got {:?}", result);
}

// ---------------------------------------------------------------------------
// Registry
// ---------------------------------------------------------------------------

fn test_manifest(command_id: &str, schema_hash: Option<&str>) -> PipeCommandManifest {
    let input = j(r#"{"type": "string"}"#);
    let output = j(r#"{"type": "number"}"#);
    let hash = match schema_hash {
        Some(h) => h.to_string(),
        None => PipeCommandManifest::compute_schema_hash(&input, &output),
    };
    PipeCommandManifest {
        command_id: command_id.to_string(),
        description: "test".to_string(),
        input_schema: input,
        output_schema: output,
        input_frame: (FrameType::JsonValue, Cardinality::One),
        output_frame: (FrameType::JsonValue, Cardinality::One),
        side_effect_level: SideEffectLevel::NoEffect,
        resource_quota: None,
        schema_hash: hash,
    }
}

#[test]
fn builtin_registry_contains_expected_commands() {
    let registry = CommandRegistry::builtin();
    let commands = registry.list();
    let ids: Vec<_> = commands.iter().map(|c| c.command_id.as_str()).collect();
    assert!(ids.contains(&"wiki.search"));
    assert!(ids.contains(&"citation.resolve"));
    assert!(ids.contains(&"adr.summarize"));
    assert!(ids.contains(&"filter"));
    assert!(ids.contains(&"map"));
    assert!(ids.contains(&"wiki.patch.propose"));
    assert_eq!(ids.len(), 6);
}

#[test]
fn registry_list_is_sorted_by_command_id() {
    let registry = CommandRegistry::builtin();
    let ids: Vec<String> = registry.list().iter().map(|c| c.command_id.clone()).collect();
    assert_eq!(ids, vec!["adr.summarize", "citation.resolve", "filter", "map", "wiki.patch.propose", "wiki.search"]);
}

#[test]
fn list_by_side_effect_filters_correctly() {
    let registry = CommandRegistry::builtin();
    let none = registry.list_by_side_effect(SideEffectLevel::NoEffect);
    assert_eq!(none.len(), 5);

    let proposal = registry.list_by_side_effect(SideEffectLevel::ProposalOnly);
    assert_eq!(proposal.len(), 1);
    assert_eq!(proposal[0].command_id, "wiki.patch.propose");

    let side_effect = registry.list_by_side_effect(SideEffectLevel::SideEffect);
    assert!(side_effect.is_empty());
}

#[test]
fn inspect_returns_full_manifest() {
    let registry = CommandRegistry::builtin();
    let manifest = registry.inspect("wiki.search").expect("wiki.search exists");
    assert_eq!(manifest.command_id, "wiki.search");
    assert!(!manifest.description.is_empty());
    assert!(manifest.schema_hash.len() == 64);
    assert!(manifest.validate_schema_hash());
}

#[test]
fn inspect_unknown_returns_command_not_found() {
    let registry = CommandRegistry::builtin();
    let result = registry.inspect("unknown.command");
    assert!(matches!(result, Err(CommandNotFound(ref id)) if id == "unknown.command"));
}

#[test]
fn register_rejects_schema_hash_mismatch() {
    let mut registry = CommandRegistry::new();
    let result = registry.register(test_manifest("test.cmd", Some("deadbeef")));
    assert!(
        matches!(result, Err(RegistrationError::SchemaHashMismatch { .. })),
        "expected schema hash mismatch, got {:?}",
        result
    );
}

#[test]
fn register_accepts_valid_manifest() {
    let mut registry = CommandRegistry::new();
    assert!(registry.register(test_manifest("test.cmd", None)).is_ok());
    assert!(registry.inspect("test.cmd").is_ok());
}

#[test]
fn register_rejects_duplicate_command_id() {
    let mut registry = CommandRegistry::new();
    let manifest = test_manifest("test.cmd", None);
    registry.register(manifest.clone()).unwrap();
    let result = registry.register(manifest);
    assert!(matches!(result, Err(RegistrationError::DuplicateCommandId(ref id)) if id == "test.cmd"));
}

#[test]
fn register_rejects_invalid_command_id() {
    let mut registry = CommandRegistry::new();
    let result = registry.register(test_manifest("", None));
    assert!(matches!(result, Err(RegistrationError::InvalidCommandId(ref id)) if id.is_empty()));
}

#[test]
fn register_rejects_blank_command_id() {
    let mut registry = CommandRegistry::new();
    let result = registry.register(test_manifest(" \t", None));
    assert!(matches!(result, Err(RegistrationError::InvalidCommandId(ref id)) if id == " \t"));
}
