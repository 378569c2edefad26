use seaki::policy::types::SideEffectLevel;
use seaki::sandbox::policy::{
    escape_sbpl_path, profile_for_side_effect, MacosSeatbeltBackend, SandboxBackendKind,
    SandboxError, SandboxPolicy, SandboxProfile, MACOS_SEATBELT_EXECUTABLE, PRIMARY_M0_BACKEND,
};

#[test]
fn profile_for_side_effect_maps_correctly() {
    assert_eq!(profile_for_side_effect(SideEffectLevel::NoEffect), SandboxProfile::ReadOnly);
    assert_eq!(
        profile_for_side_effect(SideEffectLevel::ProposalOnly),
        SandboxProfile::WorkspaceWrite
    );
    assert_eq!(
        profile_for_side_effect(SideEffectLevel::SideEffect),
        SandboxProfile::WorkspaceWrite
    );
}

#[test]
fn lib_source_ingest_profile_is_networkless() {
    assert_eq!(PRIMARY_M0_BACKEND, "macos-seatbelt");
    assert!(!SandboxProfile::SourceIngest.allows_network());
}

#[test]
fn mod_source_ingest_profile_is_networkless() {
    assert_eq!(PRIMARY_M0_BACKEND, "macos-seatbelt");
    assert!(!SandboxProfile::SourceIngest.allows_network());
}

#[test]
fn macos_backend_uses_fixed_sandbox_exec_path_and_denies_network() {
    let policy = SandboxPolicy::read_only("/work/space".to_string()).expect("policy");
    let plan = MacosSeatbeltBackend::command_plan(&policy, &["/bin/cat".to_string()], &vec![]);

    assert_eq!(plan.backend.as_str(), PRIMARY_M0_BACKEND);
    assert_eq!(plan.backend, SandboxBackendKind::MacosSeatbelt);
    assert_eq!(plan.executable, MACOS_SEATBELT_EXECUTABLE);
    assert!(plan.profile_source.contains("(deny network*)"));
    assert!(plan.profile_source.contains("(deny default)"));
    assert_eq!(plan.args[0], "-p");
    assert_eq!(plan.args[2], "/bin/cat");
}

#[test]
fn source_ingest_policy_keeps_raw_store_out_of_profile() {
    let policy = SandboxPolicy::source_ingest(
        Ok("/in/blob".to_string()),
        Ok("/tmp/iso".to_string()),
        Ok("/raw/cas".to_string()),
    )
    .expect("policy");
    assert_eq!(policy.profile(), SandboxProfile::SourceIngest);
    assert!(!policy.network_allowed());
    let plan = MacosSeatbeltBackend::command_plan(&policy, &["parser".to_string()], &vec!["/in/blob".to_string()]);
    assert!(!plan.profile_source.contains(&escape_sbpl_path("/raw/cas")));
    assert!(plan.profile_source.contains(&escape_sbpl_path("/tmp/iso")));
}

#[test]
fn source_ingest_policy_passes_canonicalize_error() {
    let err = SandboxError::PathCanonicalizeFailed {
        path: "/missing".to_string(),
        message: "no such file".to_string(),
    };
    let r = SandboxPolicy::source_ingest(
        Ok("/in/blob".to_string()),
        Err(err.clone()),
        Ok("/raw/cas".to_string()),
    );
    assert_eq!(r, Err(err));
}

#[test]
fn escape_sbpl_path_escapes_quotes_and_backslashes() {
    assert_eq!(escape_sbpl_path("a\"b\\c"), "a\\\"b\\\\c");
}

#[test]
fn sandbox_timeout_error_display() {
    assert_eq!(
        SandboxError::TimeoutExceeded { timeout_ms: 100 }.to_string(),
        "sandboxed command timed out after 100 ms"
    );
}
