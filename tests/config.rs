use flowversion::config::Config;

#[test]
fn test_config_creation() {
    let config = Config::new("test-repo".to_string(), "openai".to_string(), "tester".to_string());

    assert_eq!(config.name, "test-repo");
    assert_eq!(config.ai_mode, "openai");
    assert!(config.ai.enabled);
    assert_eq!(config.ai.provider, "openai");
}

#[test]
fn test_local_mode_disables_ai() {
    let config = Config::new("test-repo".to_string(), "local".to_string(), "tester".to_string());

    assert!(!config.ai.enabled);
    assert_eq!(config.ai.provider, "none");
    assert!(!config.is_ai_enabled());
}

#[test]
fn ai_needs_an_api_key() {
    let mut config = Config::new("r".to_string(), "openai".to_string(), "tester".to_string());
    assert!(!config.is_ai_enabled());
    config.set_ai_api_key("SECRET-REDACTED".to_string());
    config.set_ai_model("m".to_string());
    config.set_user_email("t@example.com".to_string());
    assert!(config.is_ai_enabled());
    assert_eq!(config.ai.model, Some("m".to_string()));
    assert_eq!(config.user.email, Some("t@example.com".to_string()));
    assert_eq!(config.user.name, "tester");
    assert_eq!(config.version, "0.1.0");
}
