use openbrief::config::{AgentSettings, Config, ConfigError};

#[test]
fn exclusion_matching_is_case_insensitive() {
    let config = Config::default();
    assert!(config.is_excluded("ORG.SIGNAL.SIGNAL"));
    assert!(config.is_excluded("Discord"));
    assert!(config.is_excluded("dev.vencord.Vesktop"));
    assert!(!config.is_excluded("firefox"));
}

#[test]
fn agent_defaults_to_packaged_codex_provider() {
    let settings = AgentSettings::default();
    assert_eq!(settings.provider, "codex");
    assert!(settings.executable_path.is_none());
}

#[test]
fn validation_checks_retention_provider_and_override_path() {
    let mut config = Config::default();
    assert_eq!(config.validate(), Ok(()));
    config.retention_days = 31;
    assert_eq!(config.validate(), Err(ConfigError::InvalidRetention(31)));
    config.retention_days = 1;
    config.agent.provider = "  ".into();
    assert_eq!(config.validate(), Err(ConfigError::AgentProviderRequired));
    config.agent.provider = "codex".into();
    config.agent.executable_path = Some("codex-acp".into());
    assert_eq!(config.validate(), Err(ConfigError::AgentPathMustBeAbsolute));
}

#[test]
fn loading_normalizes_provider_and_exclusions() {
    let mut config = Config::default();
    config.agent.provider = " Codex ".into();
    config.capture.excluded_apps = vec![" Signal ".into(), "signal".into(), "Firefox".into()];
    let loaded = config.finish_load().unwrap();
    assert_eq!(loaded.agent.provider, "codex");
    assert_eq!(loaded.capture.excluded_apps, vec!["firefox".to_string(), "signal".to_string()]);
}
