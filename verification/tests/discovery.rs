use kestrel::config::{Config, CustomProvider, ProviderEntry};
use kestrel::discovery::{build_catalog, provider_models, sort_models, ModelCatalog, ModelInfo, OpenAiCompatDiscovery};

fn model(id: &str, provider: &str) -> ModelInfo {
    ModelInfo {
        id: id.to_string(),
        name: id.to_string(),
        provider: provider.to_string(),
        context_length: None,
        description: None,
    }
}

#[test]
fn test_model_info_qualified_id() {
    let info = ModelInfo {
        id: "glm-5.1".to_string(),
        name: "GLM-5.1".to_string(),
        provider: "opencode_go".to_string(),
        context_length: Some(200_000),
        description: None,
    };
    assert_eq!(info.qualified_id(), "opencode_go/glm-5.1");
}

#[test]
fn test_catalog_empty() {
    let catalog = ModelCatalog::new();
    let (models, to_fetch) = catalog.plan_refresh(0);
    assert!(models.is_empty());
    assert!(to_fetch.is_empty());
}

#[test]
fn test_catalog_invalidate() {
    let mut catalog = ModelCatalog::new();
    catalog.invalidate_cache();
    let (models, _) = catalog.plan_refresh(0);
    assert!(models.is_empty());
}

#[test]
fn discovery_urls() {
    let d = OpenAiCompatDiscovery::new("https://api.x/v1".into(), "k".into(), "x".into(), false);
    assert_eq!(d.models_url(), "https://api.x/v1/models");
    assert_eq!(d.authorization(), "Bearer k");
    assert!(!d.no_proxy());
}

#[test]
fn catalog_caches_fetches() {
    let mut catalog = ModelCatalog::new();
    catalog.register("p", OpenAiCompatDiscovery::new("u".into(), "k".into(), "p".into(), false));
    let (models, to_fetch) = catalog.plan_refresh(1_000);
    assert!(models.is_empty());
    assert_eq!(to_fetch, vec!["p".to_string()]);
    let mut results = Vec::new();
    catalog.record_fetch("p", Ok(vec![model("m1", "p")]), 1_000, &mut results);
    assert_eq!(results.len(), 1);
    let (cached, again) = catalog.plan_refresh(2_000);
    assert_eq!(cached.len(), 1);
    assert!(again.is_empty());
    let (_, stale) = catalog.plan_refresh(1_000 + 300_000);
    assert_eq!(stale, vec!["p".to_string()]);
    catalog.invalidate_cache();
    let (_, after) = catalog.plan_refresh(2_000);
    assert_eq!(after, vec!["p".to_string()]);
}

#[test]
fn models_sorted_and_filtered() {
    let sorted = sort_models(vec![model("b", "y"), model("a", "y"), model("c", "x")]);
    let ids: Vec<String> = sorted.iter().map(|m| m.qualified_id()).collect();
    assert_eq!(ids, vec!["x/c", "y/a", "y/b"]);
    let only_y = provider_models(&sorted, "y");
    assert_eq!(only_y.len(), 2);
}

#[test]
fn catalog_from_config_uses_keyed_sections() {
    let mut c = Config::default();
    c.providers.openai = Some(ProviderEntry { api_key: Some("k".into()), ..ProviderEntry::default() });
    c.providers.groq = Some(ProviderEntry::default());
    let catalog = build_catalog(&c);
    assert!(catalog.source_for("openai").is_some());
    assert!(catalog.source_for("groq").is_none());
}

#[test]
fn catalog_registers_custom_providers() {
    let mut c = Config::default();
    c.custom_providers.push(CustomProvider {
        name: "mine".into(),
        api_key: Some("k".into()),
        base_url: "http://localhost:9000/v1".into(),
        model_patterns: vec![],
        no_proxy: None,
    });
    let catalog = build_catalog(&c);
    let d = catalog.source_for("mine").unwrap();
    assert_eq!(d.models_url(), "http://localhost:9000/v1/models");
    assert_eq!(d.authorization(), "Bearer k");
}
