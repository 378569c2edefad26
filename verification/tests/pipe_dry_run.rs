use seaki::pipe::ast::{compose, ComposedPipeline, FailurePolicy, InputBinding, PipelineAst, PipelineStep};
use seaki::pipe::dry_run::{dry_run, DryRunEvent, ErrorKind, PipelineError};
use seaki::pipe::registry::{CommandRegistry, SideEffectLevel};
use serde_json::Value;

fn j(text: &str) -> Value {
    serde_json::from_str(text).unwrap()
}

fn chain(pipeline_id: &str, last: &str) -> ComposedPipeline {
    let registry = CommandRegistry::builtin();
    let ast = PipelineAst {
        pipeline_id: pipeline_id.to_string(),
        steps: vec![
            PipelineStep {
                step_id: "s1".to_string(),
                command_id: "wiki.search".to_string(),
                input_binding: InputBinding::Constant(j(r#"{"keyword": "rust"}"#)),
                failure_policy: FailurePolicy::FailFast,
                args: j("{}"),
            },
            PipelineStep {
                step_id: "s2".to_string(),
                command_id: "citation.resolve".to_string(),
                input_binding: InputBinding::PreviousStep,
                failure_policy: FailurePolicy::FailFast,
                args: j("{}"),
            },
            PipelineStep {
                step_id: "s3".to_string(),
                command_id: last.to_string(),
                input_binding: InputBinding::PreviousStep,
                failure_policy: FailurePolicy::FailFast,
                args: j("{}"),
            },
        ],
    };
    compose(&ast, &registry).expect("compose succeeds")
}

fn composed_side_effect_free_chain() -> ComposedPipeline {
    chain("test-pipe", "adr.summarize")
}

fn composed_proposal_chain() -> ComposedPipeline {
    chain("prop-pipe", "wiki.patch.propose")
}

fn produces_events() {
    let pipeline = composed_side_effect_free_chain();
    let result = dry_run(&pipeline, j(r#"{"keyword": "rust"}"#));

    assert!(!result.events.is_empty());
    assert!(result.events.iter().any(|e| matches!(e, DryRunEvent::Request { .. })));
    assert!(result.events.iter().any(|e| matches!(e, DryRunEvent::StepStarted { .. })));
    assert!(result.events.iter().any(|e| matches!(e, DryRunEvent::Frame { .. })));
    assert!(result.events.iter().any(|e| matches!(e, DryRunEvent::Checkpoint { .. })));
    assert!(result.events.iter().any(|e| matches!(e, DryRunEvent::StepCompleted { .. })));
}

fn no_side_effects() {
    let pipeline = composed_side_effect_free_chain();
    let result = dry_run(&pipeline, j(r#"{"keyword": "rust"}"#));

    for step in &pipeline.steps {
        assert_eq!(step.side_effect_level, SideEffectLevel::NoEffect);
    }
    assert!(!result.events.iter().any(|e| matches!(e, DryRunEvent::StepFailed { .. })));
}

fn includes_proposal_artifact() {
    let pipeline = composed_proposal_chain();
    let result = dry_run(&pipeline, j(r#"{"keyword": "rust"}"#));

    assert!(result.proposal_artifact.is_some(), "expected proposal artifact when final step is proposal_only");
    let artifact = result.proposal_artifact.unwrap();
    assert_eq!(artifact.patch_id, "patch-prop-pipe");
    assert!(!artifact.diff.is_empty());
    assert_eq!(artifact.claim_ids, vec!["claim-1", "claim-2"]);
}

fn no_proposal_artifact_for_none_chain() {
    let pipeline = composed_side_effect_free_chain();
    let result = dry_run(&pipeline, j(r#"{"keyword": "rust"}"#));
    assert!(result.proposal_artifact.is_none());
}

fn expected_frames_and_permissions() {
    let pipeline = composed_side_effect_free_chain();
    let result = dry_run(&pipeline, j(r#"{"keyword": "rust"}"#));

    assert_eq!(result.expected_frame_count, 5);
    assert!(!result.expected_permissions.is_empty());
    assert!(result.expected_permissions.contains(&"wiki:read".to_string()));
    assert!(result.expected_permissions.contains(&"citation:read".to_string()));
}

fn step_failed_carries_structured_error() {
    let error = PipelineError { retryable: false, failed_step_id: "s2".to_string(), error_kind: ErrorKind::CommandNotFound };
    let event = DryRunEvent::StepFailed { step_id: "s2".to_string(), error: error.clone() };
    match event {
        DryRunEvent::StepFailed { step_id, error } => {
            assert_eq!(step_id, "s2");
            assert_eq!(error.failed_step_id, "s2");
            assert_eq!(error.error_kind, ErrorKind::CommandNotFound);
            assert!(!error.retryable);
        }
        _ => panic!("expected StepFailed"),
    }
}

#[test]
fn dry_run_dry_run_produces_events() {
    produces_events();
}

#[test]
fn dry_run_tests_dry_run_produces_events() {
    produces_events();
}

#[test]
fn dry_run_dry_run_no_side_effects() {
    no_side_effects();
}

#[test]
fn dry_run_tests_dry_run_no_side_effects() {
    no_side_effects();
}

#[test]
fn dry_run_dry_run_includes_proposal_artifact_when_last_step_is_proposal_only() {
    includes_proposal_artifact();
}

#[test]
fn dry_run_tests_dry_run_includes_proposal_artifact_when_last_step_is_proposal_only() {
    includes_proposal_artifact();
}

#[test]
fn dry_run_dry_run_no_proposal_artifact_for_none_chain() {
    no_proposal_artifact_for_none_chain();
}

#[test]
fn dry_run_tests_dry_run_no_proposal_artifact_for_none_chain() {
    no_proposal_artifact_for_none_chain();
}

#[test]
fn dry_run_dry_run_expected_frames_and_permissions() {
    expected_frames_and_permissions();
}

#[test]
fn dry_run_tests_dry_run_expected_frames_and_permissions() {
    expected_frames_and_permissions();
}

#[test]
fn dry_run_dry_run_step_failed_carries_structured_error() {
    step_failed_carries_structured_error();
}

#[test]
fn dry_run_tests_dry_run_step_failed_carries_structured_error() {
    step_failed_carries_structured_error();
}

#[test]
fn dry_run_events_follow_request_then_step_blocks() {
    let pipeline = composed_side_effect_free_chain();
    let result = dry_run(&pipeline, j(r#"{"keyword": "rust"}"#));
    // Request, then per step: started, frames with checkpoints, completed.
    // Frames: 2 (search), 2 (citations), 1 (summary).
    assert_eq!(result.events.len(), 1 + (2 + 2 * 2) + (2 + 2 * 2) + (2 + 2));
    assert!(matches!(result.events[0], DryRunEvent::Request { .. }));
    assert!(matches!(result.events[1], DryRunEvent::StepStarted { ref step_id } if step_id == "s1"));
}
