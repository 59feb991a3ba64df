use openbrief::agent::AuthMethodInfo;
use openbrief::protocol::RuntimeSource;
use openbrief::runtime::{
    descriptor, meets_minimum_version, parse_version, resolve_runtime, runtime_candidates, runtime_matches_provider,
    runtime_spec, version_word, AcpRuntimeSpec, ResolveError,
};

#[test]
fn catalog_exposes_supported_runtimes_without_provider_specific_control_flow() {
    let spec = runtime_spec("codex").expect("codex should be registered");
    assert_eq!(spec.label, "Codex");
    assert_eq!(spec.packaged_path, "libexec/openbrief/codex-acp");
    assert!(spec.openbrief_mcp);

    let spec = runtime_spec("pi").expect("pi should be registered");
    assert_eq!(spec.label, "Pi");
    assert_eq!(spec.packaged_path, "libexec/openbrief/pi-acp");
    assert_eq!(spec.minimum_version, None);
    assert!(spec.manual_auth_instructions.is_some());
    assert!(!spec.openbrief_mcp);
    assert!(runtime_spec("unknown").is_none());
}

#[test]
fn parses_versions_used_by_minimum_policy() {
    assert_eq!(parse_version("1.1.7"), Some((1, 1, 7)));
    assert_eq!(parse_version("v1.2.0"), Some((1, 2, 0)));
    assert_eq!(parse_version("latest"), None);
    assert!(meets_minimum_version("1.1.7", (1, 1, 7)));
    assert!(meets_minimum_version("v1.2.0", (1, 1, 7)));
    assert!(!meets_minimum_version("1.1.6", (1, 1, 7)));
}

#[test]
fn explicit_override_wins_without_provider_specific_resolution() {
    let spec = runtime_spec("codex").expect("codex should be registered");
    let override_path = "/opt/openbrief/Cargo.toml";
    let candidates = runtime_candidates(&spec, "/unused/openbrief-desktop", None);
    let found = vec![false; candidates.len()];
    let runtime = resolve_runtime(&spec, Some(override_path), true, &candidates, &found)
        .expect("existing override should resolve");

    assert!(matches!(runtime.source, RuntimeSource::Override));
    assert_eq!(runtime.provider_id, "codex");
    assert_eq!(runtime.path, override_path);
}

#[test]
fn packaged_path_comes_from_the_catalog() {
    let spec = AcpRuntimeSpec {
        id: "fixture",
        label: "Fixture",
        packaged_path: "Cargo.toml",
        args: &["serve"],
        minimum_version: None,
        preferred_auth_method_hint: None,
        manual_auth_instructions: None,
        openbrief_mcp: false,
    };
    let resource_dir = "/opt/openbrief";
    let candidates = runtime_candidates(&spec, "/outside/openbrief-desktop", Some(resource_dir));
    let found: Vec<bool> = candidates.iter().map(|c| c.path == "/opt/openbrief/Cargo.toml").collect();
    let runtime = resolve_runtime(&spec, None, false, &candidates, &found).expect("catalog resource should resolve");

    assert!(matches!(runtime.source, RuntimeSource::Packaged));
    assert_eq!(runtime.provider_id, "fixture");
    assert_eq!(runtime.path, "/opt/openbrief/Cargo.toml");
    assert!(!spec.openbrief_mcp);
}

#[test]
fn catalog_controls_auth_preference_and_runtime_identity() {
    let spec = runtime_spec("codex").expect("codex should be registered");
    let mut methods = vec![
        AuthMethodInfo { id: "api-key".to_owned(), name: "API key".to_owned() },
        AuthMethodInfo { id: "chatgpt".to_owned(), name: "ChatGPT".to_owned() },
    ];
    spec.prioritize_auth_methods(&mut methods);

    assert_eq!(methods[0].id, "chatgpt");
    let descriptor = descriptor(&spec, RuntimeSource::Packaged, "/runtime".into());
    assert!(runtime_matches_provider(Some(&descriptor), "codex"));
    assert!(!runtime_matches_provider(Some(&descriptor), "other"));
}

#[test]
fn candidates_sit_beside_the_executable_and_in_resources() {
    let spec = runtime_spec("codex").unwrap();
    let candidates = runtime_candidates(&spec, "/nix/store/abc-openbrief/bin/openbrief", Some("/res"));
    assert_eq!(candidates.len(), 2);
    assert_eq!(candidates[0].source, RuntimeSource::NixStore);
    assert_eq!(candidates[0].path, "/nix/store/abc-openbrief/bin/../libexec/openbrief/codex-acp");
    assert_eq!(candidates[1].source, RuntimeSource::Packaged);
    assert_eq!(candidates[1].path, "/res/libexec/openbrief/codex-acp");
}

#[test]
fn missing_runtimes_are_reported_by_label() {
    let spec = runtime_spec("pi").unwrap();
    let candidates = runtime_candidates(&spec, "/usr/bin/openbrief", None);
    let found = vec![false; candidates.len()];
    let missing = resolve_runtime(&spec, None, false, &candidates, &found).unwrap_err();
    assert_eq!(missing, ResolveError::MissingPackaged { label: "Pi".to_owned() });
    assert_eq!(
        missing.message(),
        "Pi ACP runtimeがOpenBriefに含まれていません。OpenBriefを再インストールしてください"
    );
    let absent = resolve_runtime(&spec, Some("/nowhere/pi-acp"), false, &candidates, &found).unwrap_err();
    assert_eq!(absent.message(), "設定されたPi ACP runtimeが見つかりません: /nowhere/pi-acp");
}

#[test]
fn versions_reject_extra_parts_and_bad_numbers() {
    assert_eq!(parse_version("1.2"), None);
    assert_eq!(parse_version("1.2.3.4"), None);
    assert_eq!(parse_version("vv+1.2.3"), Some((1, 2, 3)));
    assert_eq!(parse_version("1.x.3"), None);
    assert_eq!(parse_version("1..3"), None);
    assert_eq!(parse_version("18446744073709551616.0.0"), None);
    assert_eq!(parse_version("18446744073709551615.0.0"), Some((u64::MAX, 0, 0)));
}

#[test]
fn the_first_version_word_of_the_output_is_taken() {
    assert_eq!(version_word("codex-acp 1.2.0 (commit 0.0.1)\n").as_deref(), Some("1.2.0"));
    assert_eq!(version_word("v1.1.7").as_deref(), Some("v1.1.7"));
    assert_eq!(version_word("codex-acp latest\n"), None);
    assert_eq!(version_word(""), None);
}
