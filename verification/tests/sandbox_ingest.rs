use seaki::sandbox::ingest::{SourceIngestContext, SourceIngestRequest, WriteMode};
use seaki::sandbox::policy::{
    escape_sbpl_path, MacosSeatbeltBackend, SandboxDecision, SandboxDenyReason, SandboxError, SandboxOperation,
    SandboxPolicy, MACOS_SEATBELT_EXECUTABLE, PRIMARY_M0_BACKEND,
};

const INPUT: &str = "/srv/source/source.md";
const RAW: &str = "/srv/raw";
const TEMP: &str = "/srv/isolated";
const WORKSPACE: &str = "/srv/workspace";

/// A source-ingest sandbox over canonical paths: the input blob, the raw
/// store and the isolated temp directory.
fn request() -> SourceIngestRequest {
    SourceIngestRequest::new(INPUT.to_string(), RAW.to_string(), TEMP.to_string())
        .with_actor("actor-1".to_string())
        .with_workspace("workspace-1".to_string())
        .with_capability_id("cap-source".to_string())
        .with_policy_decision_id("pd-source".to_string())
}

fn policy() -> SandboxPolicy {
    SandboxPolicy::source_ingest(Ok(INPUT.to_string()), Ok(TEMP.to_string()), Ok(RAW.to_string())).expect("policy")
}

fn context() -> SourceIngestContext {
    SourceIngestContext::new(request(), policy(), Ok(INPUT.to_string()), Ok(RAW.to_string()), Ok(TEMP.to_string()))
        .expect("context")
}

fn macos_backend_uses_fixed_sandbox_exec_path_and_denies_network() {
    let policy = SandboxPolicy::read_only(WORKSPACE.to_string()).expect("policy");
    let plan = MacosSeatbeltBackend::command_plan(&policy, &["/bin/cat".to_string()], &Vec::new());

    assert_eq!(plan.backend.as_str(), PRIMARY_M0_BACKEND);
    assert_eq!(plan.executable, MACOS_SEATBELT_EXECUTABLE);
    assert!(plan.profile_source.contains("(deny network*)"));
    assert!(plan.profile_source.contains("(deny default)"));
    assert_eq!(plan.args[0], "-p");
    assert_eq!(plan.args[2], "/bin/cat");
}

#[test]
fn lib_macos_backend_uses_fixed_sandbox_exec_path_and_denies_network() {
    macos_backend_uses_fixed_sandbox_exec_path_and_denies_network();
}

#[test]
fn mod_macos_backend_uses_fixed_sandbox_exec_path_and_denies_network() {
    macos_backend_uses_fixed_sandbox_exec_path_and_denies_network();
}

fn source_ingest_allows_input_read_and_raw_temp_writes() {
    let policy = policy();
    let plan = MacosSeatbeltBackend::command_plan(&policy, &["parser".to_string()], &vec![INPUT.to_string()]);
    assert!(!policy.write_roots.contains(&RAW.to_string()));
    assert!(policy.write_roots.contains(&TEMP.to_string()));
    assert!(!plan.profile_source.contains(&escape_sbpl_path(RAW)));
    assert!(plan.profile_source.contains(&escape_sbpl_path(TEMP)));

    let mut ctx = context();
    let read = ctx.check_read(INPUT, Ok(INPUT.to_string()));
    ctx.record(SandboxOperation::FileRead, Some(INPUT.to_string()), &read);
    assert_eq!(read, Ok(INPUT.to_string()));

    let raw_target = ctx.raw_cas_target("ab/source.blob").expect("raw target");
    assert_eq!(raw_target, "/srv/raw/ab/source.blob");
    let raw = ctx.check_write(&raw_target, Ok(raw_target.clone()), WriteMode::AppendOnly);
    ctx.record(SandboxOperation::FileWrite, Some(raw_target.clone()), &raw);
    assert_eq!(raw, Ok(raw_target.clone()));

    let temp_target = ctx.temp_target("parser/out.txt").expect("temp target");
    let temp = ctx.check_write(&temp_target, Ok(temp_target.clone()), WriteMode::Replace);
    ctx.record(SandboxOperation::FileWrite, Some(temp_target.clone()), &temp);
    assert_eq!(temp, Ok("/srv/isolated/parser/out.txt".to_string()));

    let audit = ctx.into_audit();
    assert_eq!(audit.len(), 3);
    assert!(audit.iter().all(|record| record.decision == SandboxDecision::Allow));
}

fn source_ingest_denies_network_and_audits_rejection() {
    let mut ctx = context();
    let denied = ctx.network_request("https://example.invalid/parser-model".to_string());
    assert!(matches!(
        denied,
        Err(SandboxError::Denied {
            operation: SandboxOperation::NetworkRequest,
            reason: SandboxDenyReason::NetworkDenied,
            ..
        })
    ));

    let audit = ctx.audit();
    assert_eq!(audit.len(), 1);
    assert_eq!(audit[0].operation, SandboxOperation::NetworkRequest);
    assert_eq!(audit[0].decision, SandboxDecision::Deny);
    assert_eq!(audit[0].deny_reason, Some(SandboxDenyReason::NetworkDenied));
    assert_eq!(audit[0].network_target.as_deref(), Some("https://example.invalid/parser-model"));
}

fn source_ingest_denies_workspace_write_and_audits_rejection() {
    let mut ctx = context();
    let wiki_path = format!("{WORKSPACE}/wiki/page.md");
    let denied = ctx.check_write(&wiki_path, Ok(wiki_path.clone()), WriteMode::Replace);
    ctx.record(SandboxOperation::FileWrite, Some(wiki_path.clone()), &denied);
    assert!(matches!(
        denied,
        Err(SandboxError::Denied {
            operation: SandboxOperation::FileWrite,
            reason: SandboxDenyReason::WriteOutsideAllowedRoots,
            ..
        })
    ));

    let audit = ctx.audit();
    assert_eq!(audit.len(), 1);
    assert_eq!(audit[0].operation, SandboxOperation::FileWrite);
    assert_eq!(audit[0].decision, SandboxDecision::Deny);
    assert_eq!(audit[0].deny_reason, Some(SandboxDenyReason::WriteOutsideAllowedRoots));
}

fn source_ingest_denies_writing_input_blob() {
    let mut ctx = context();
    let denied = ctx.check_write(INPUT, Ok(INPUT.to_string()), WriteMode::Replace);
    ctx.record(SandboxOperation::FileWrite, Some(INPUT.to_string()), &denied);
    assert!(matches!(
        denied,
        Err(SandboxError::Denied {
            operation: SandboxOperation::FileWrite,
            reason: SandboxDenyReason::WriteOutsideAllowedRoots | SandboxDenyReason::SourceInputIsReadOnly,
            ..
        })
    ));
    assert_eq!(ctx.audit()[0].decision, SandboxDecision::Deny);
}

fn source_ingest_denies_relative_escape_for_raw_write() {
    let mut ctx = context();
    let denied = ctx.raw_cas_target("../escape");
    ctx.record(SandboxOperation::FileWrite, Some("../escape".to_string()), &denied);
    assert!(matches!(
        denied,
        Err(SandboxError::Denied {
            operation: SandboxOperation::FileWrite,
            reason: SandboxDenyReason::UnsafeRelativePath,
            ..
        })
    ));

    let audit = ctx.audit();
    assert_eq!(audit.len(), 1);
    assert_eq!(audit[0].operation, SandboxOperation::FileWrite);
    assert_eq!(audit[0].decision, SandboxDecision::Deny);
    assert_eq!(audit[0].deny_reason, Some(SandboxDenyReason::UnsafeRelativePath));
}

fn source_ingest_denies_parent_dir_in_direct_write_target() {
    let mut ctx = context();
    let escaped = format!("{TEMP}/../escape");
    let denied = ctx.check_write(&escaped, Ok("/srv/escape".to_string()), WriteMode::Replace);
    ctx.record(SandboxOperation::FileWrite, Some(escaped.clone()), &denied);
    assert!(matches!(
        denied,
        Err(SandboxError::Denied {
            operation: SandboxOperation::FileWrite,
            reason: SandboxDenyReason::UnsafeRelativePath,
            ..
        })
    ));

    let audit = ctx.audit();
    assert_eq!(audit.len(), 1);
    assert_eq!(audit[0].decision, SandboxDecision::Deny);
    assert_eq!(audit[0].deny_reason, Some(SandboxDenyReason::UnsafeRelativePath));
}

#[test]
fn source_ingest_reads_only_its_input() {
    let ctx = context();
    let other = "/srv/source/other.md";
    assert!(matches!(
        ctx.check_read(other, Ok(other.to_string())),
        Err(SandboxError::Denied { reason: SandboxDenyReason::ReadOutsideAllowedRoots, .. })
    ));
    assert!(matches!(
        ctx.check_write("/srv/raw/ab/blob", Ok("/srv/raw/ab/blob".to_string()), WriteMode::Replace),
        Err(SandboxError::Denied { reason: SandboxDenyReason::WriteOutsideAllowedRoots, .. })
    ));
}

#[test]
fn lib_source_ingest_allows_input_read_and_raw_temp_writes() {
    source_ingest_allows_input_read_and_raw_temp_writes();
}

#[test]
fn mod_source_ingest_allows_input_read_and_raw_temp_writes() {
    source_ingest_allows_input_read_and_raw_temp_writes();
}

#[test]
fn lib_source_ingest_denies_network_and_audits_rejection() {
    source_ingest_denies_network_and_audits_rejection();
}

#[test]
fn mod_source_ingest_denies_network_and_audits_rejection() {
    source_ingest_denies_network_and_audits_rejection();
}

#[test]
fn lib_source_ingest_denies_workspace_write_and_audits_rejection() {
    source_ingest_denies_workspace_write_and_audits_rejection();
}

#[test]
fn mod_source_ingest_denies_workspace_write_and_audits_rejection() {
    source_ingest_denies_workspace_write_and_audits_rejection();
}

#[test]
fn lib_source_ingest_denies_writing_input_blob() {
    source_ingest_denies_writing_input_blob();
}

#[test]
fn mod_source_ingest_denies_writing_input_blob() {
    source_ingest_denies_writing_input_blob();
}

#[test]
fn lib_source_ingest_denies_relative_escape_for_raw_write() {
    source_ingest_denies_relative_escape_for_raw_write();
}

#[test]
fn mod_source_ingest_denies_relative_escape_for_raw_write() {
    source_ingest_denies_relative_escape_for_raw_write();
}

#[test]
fn lib_source_ingest_denies_parent_dir_in_direct_write_target() {
    source_ingest_denies_parent_dir_in_direct_write_target();
}

#[test]
fn mod_source_ingest_denies_parent_dir_in_direct_write_target() {
    source_ingest_denies_parent_dir_in_direct_write_target();
}
