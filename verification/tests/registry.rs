use kestrel::config::{Config, CustomProvider, ProviderEntry};
use kestrel::registry::{ProviderRegistry, ProviderSettings};

#[test]
fn test_registry_new() {
    let reg: ProviderRegistry<&str> = ProviderRegistry::new();
    assert!(reg.provider_names().is_empty());
    assert_eq!(reg.concurrency_limit(), 4);
}

#[test]
fn test_registry_register() {
    let mut reg = ProviderRegistry::new();
    reg.register("mock", "test");
    let names = reg.provider_names();
    assert_eq!(names.len(), 1);
    assert!(names.contains(&"mock".to_string()));
}

#[test]
fn test_get_provider_by_name() {
    let mut reg = ProviderRegistry::new();
    reg.register("anthropic", "anthropic-client");
    reg.register("openai", "openai-client");
    let p = reg.get_provider_by_name("anthropic");
    assert_eq!(p, Some(&"anthropic-client"));
    assert!(reg.get_provider_by_name("unknown").is_none());
}

#[test]
fn test_get_provider_by_name_fallback_to_default() {
    let mut reg = ProviderRegistry::new();
    reg.register("anthropic", "anthropic-client");
    reg.register("openai", "openai-client");
    reg.set_default("openai");
    assert_eq!(reg.get_provider_by_name("nonexistent"), Some(&"openai-client"));
}

#[test]
fn test_get_provider() {
    let mut reg = ProviderRegistry::new();
    reg.register("opencode_go", "glm");
    assert_eq!(reg.get_provider("opencode_go"), Some(&"glm"));
}

#[test]
fn test_registry_default_provider() {
    let reg: ProviderRegistry<&str> = ProviderRegistry::default();
    assert!(reg.provider_names().is_empty());
    assert!(reg.default_provider_name().is_none());
}

#[test]
fn test_set_default_validates() {
    let mut reg = ProviderRegistry::new();
    reg.register("anthropic", "a");
    reg.set_default("nonexistent");
    assert!(reg.default_provider_name().is_none());
    reg.set_default("anthropic");
    assert_eq!(reg.default_provider_name(), Some("anthropic"));
}

#[test]
fn test_default_provider_name() {
    let mut reg = ProviderRegistry::new();
    assert!(reg.default_provider_name().is_none());
    reg.register("openai", "gpt");
    reg.set_default("openai");
    assert_eq!(reg.default_provider_name(), Some("openai"));
}

#[test]
fn register_replaces_same_name() {
    let mut reg = ProviderRegistry::with_concurrency_limit(2);
    reg.register("a", 1);
    reg.register("a", 2);
    assert_eq!(reg.provider_names(), vec!["a".to_string()]);
    assert_eq!(reg.get_provider("a"), Some(&2));
    assert_eq!(reg.concurrency_limit(), 2);
}

#[test]
fn from_config_registers_keyed_providers() {
    let mut c = Config::default();
    c.providers.openai = Some(ProviderEntry { api_key: Some("sk".into()), ..ProviderEntry::default() });
    c.providers.deepseek = Some(ProviderEntry::default());
    c.custom_providers.push(CustomProvider {
        name: "mine".into(),
        api_key: None,
        base_url: "http://localhost:9000/v1".into(),
        model_patterns: vec![],
        no_proxy: None,
    });
    let reg = ProviderRegistry::<ProviderSettings>::from_config(&c);
    let names = reg.provider_names();
    assert!(names.contains(&"openai".to_string()));
    assert!(!names.contains(&"deepseek".to_string()));
    assert!(names.contains(&"mine".to_string()));
}

#[test]
fn from_config_defaults_to_first_registered() {
    let mut c = Config::default();
    c.providers.anthropic = Some(ProviderEntry { api_key: Some("a".into()), ..ProviderEntry::default() });
    c.providers.openai = Some(ProviderEntry { api_key: Some("o".into()), ..ProviderEntry::default() });
    let reg = ProviderRegistry::<ProviderSettings>::from_config(&c);
    assert_eq!(reg.default_provider_name(), Some("anthropic"));
    c.agent.provider = Some("openai".into());
    let reg = ProviderRegistry::<ProviderSettings>::from_config(&c);
    assert_eq!(reg.default_provider_name(), Some("openai"));
    c.agent.provider = Some("missing".into());
    let reg = ProviderRegistry::<ProviderSettings>::from_config(&c);
    assert_eq!(reg.default_provider_name(), Some("anthropic"));
}

#[test]
fn from_config_names_in_registration_order() {
    let mut c = Config::default();
    c.providers.groq = Some(ProviderEntry { api_key: Some("g".into()), ..ProviderEntry::default() });
    c.providers.openai = Some(ProviderEntry { api_key: Some("o".into()), ..ProviderEntry::default() });
    let reg = ProviderRegistry::<ProviderSettings>::from_config(&c);
    assert_eq!(reg.provider_names(), vec!["openai".to_string(), "groq".to_string()]);
    assert_eq!(reg.default_provider_name(), Some("openai"));
}
