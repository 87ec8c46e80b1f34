use kestrel::config::{get_provider_url, set_provider_api_key, set_provider_url, Config, TelegramConfig, WebSocketConfig};
use kestrel::setup::{
    apply_api_key, apply_base_url, apply_provider_choice, apply_telegram, apply_websocket,
    config_summary, default_listen_addr, default_model_for, default_provider_index,
    default_url_for, model_prompt_default, parse_allowed_users, start_decision,
    url_prompt_default, wizard_position, wizard_provider, ExistingConfig, StartDecision,
};

#[test]
fn provider_helpers_set_and_get_fields() {
    let mut config = Config::default();
    set_provider_url(&mut config, "openai", "https://custom.api/v1");
    set_provider_api_key(&mut config, "openai", "sk-test-key");
    let entry = config.providers.openai.as_ref().unwrap();
    assert_eq!(entry.base_url.as_deref(), Some("https://custom.api/v1"));
    assert_eq!(entry.api_key.as_deref(), Some("sk-test-key"));
}

#[test]
fn provider_helpers_handle_unknown_provider() {
    let mut config = Config::default();
    set_provider_url(&mut config, "nonexistent", "https://example.com");
    assert!(get_provider_url(&config, "nonexistent").is_none());
}

#[test]
fn provider_menu_and_defaults() {
    assert_eq!(wizard_provider(0), "anthropic");
    assert_eq!(wizard_provider(10), "openai_codex");
    assert_eq!(wizard_position("groq"), Some(6));
    assert_eq!(wizard_position("nope"), None);
    assert_eq!(default_provider_index(&None), 1);
    assert_eq!(default_provider_index(&Some("ollama".to_string())), 3);
    assert_eq!(default_provider_index(&Some("unknown".to_string())), 1);
    assert_eq!(default_model_for("ollama"), Some("llama3"));
    assert_eq!(default_model_for("github_copilot"), Some("gpt-4o"));
    assert_eq!(default_model_for("anthropic"), None);
    assert_eq!(default_url_for("groq"), "https://api.groq.com/openai/v1");
    assert_eq!(default_url_for("openai_codex"), "https://api.openai.com/v1");
    assert_eq!(default_url_for("other"), "");
}

#[test]
fn provider_answers_change_config() {
    let mut c = Config::default();
    apply_provider_choice(&mut c, 4, "deepseek-chat".to_string());
    assert_eq!(c.agent.provider.as_deref(), Some("deepseek"));
    assert_eq!(c.agent.model, "deepseek-chat");
    assert_eq!(url_prompt_default(&c, "deepseek"), "https://api.deepseek.com");
    apply_base_url(&mut c, "deepseek", true, "https://proxy/v1");
    assert_eq!(get_provider_url(&c, "deepseek"), Some("https://proxy/v1"));
    assert_eq!(url_prompt_default(&c, "deepseek"), "https://proxy/v1");
    apply_api_key(&mut c, "deepseek", "");
    assert!(c.providers.deepseek.as_ref().unwrap().api_key.is_none());
    apply_api_key(&mut c, "deepseek", "sk-1");
    assert_eq!(c.providers.deepseek.as_ref().unwrap().api_key.as_deref(), Some("sk-1"));
    let before = c.clone();
    apply_base_url(&mut c, "unknown", false, "");
    assert_eq!(c, before);
}

#[test]
fn model_prompt_uses_config_first() {
    let mut c = Config::default();
    assert_eq!(model_prompt_default(&c, "ollama"), "gpt-4o");
    c.agent.model = String::new();
    assert_eq!(model_prompt_default(&c, "ollama"), "llama3");
    assert_eq!(model_prompt_default(&c, "anthropic"), "");
}

#[test]
fn allowed_users_are_split_and_trimmed() {
    assert_eq!(parse_allowed_users(" 1, 2 ,,3 "), vec!["1", "2", "3"]);
    assert!(parse_allowed_users("   ").is_empty());
    assert!(parse_allowed_users("").is_empty());
    assert_eq!(parse_allowed_users("abc"), vec!["abc"]);
}

#[test]
fn telegram_and_websocket_answers() {
    let mut c = Config::default();
    apply_telegram(&mut c, true, String::new(), "1");
    assert!(c.channels.telegram.is_none());
    apply_telegram(&mut c, false, "tok".to_string(), "1");
    assert!(c.channels.telegram.is_none());
    apply_telegram(&mut c, true, "tok".to_string(), "7, 8");
    let tg: &TelegramConfig = c.channels.telegram.as_ref().unwrap();
    assert_eq!(tg.token, "tok");
    assert_eq!(tg.allowed_users, vec!["7", "8"]);
    assert!(tg.enabled && tg.streaming && tg.admin_users.is_empty() && tg.proxy.is_none());

    assert_eq!(default_listen_addr(&c), "127.0.0.1:8090");
    apply_websocket(&mut c, true, "0.0.0.0:9000".to_string());
    let ws: &WebSocketConfig = c.channels.websocket.as_ref().unwrap();
    assert_eq!(ws.listen_addr, "0.0.0.0:9000");
    assert_eq!(ws.max_clients, 100);
    assert_eq!(ws.max_message_size, 1048576);
    assert_eq!(default_listen_addr(&c), "0.0.0.0:9000");
    apply_websocket(&mut c, false, String::new());
    assert!(c.channels.websocket.is_none());
}

#[test]
fn start_decisions() {
    assert!(matches!(start_decision(ExistingConfig::Missing, false), StartDecision::Fresh));
    assert!(matches!(start_decision(ExistingConfig::Loaded(Config::default()), true), StartDecision::Update(_)));
    assert!(matches!(start_decision(ExistingConfig::Loaded(Config::default()), false), StartDecision::Keep));
    assert!(matches!(start_decision(ExistingConfig::Unreadable("x".into()), true), StartDecision::Fresh));
    assert!(matches!(start_decision(ExistingConfig::Unreadable("x".into()), false), StartDecision::Cancel));
}

#[test]
fn summary_masks_token() {
    let mut c = Config::default();
    apply_telegram(&mut c, true, "123456:ABC".to_string(), "");
    apply_websocket(&mut c, true, "127.0.0.1:8090".to_string());
    let lines = config_summary(&c);
    assert_eq!(lines[0], "  Model:        gpt-4o");
    assert_eq!(lines[1], "  Provider:     default");
    assert_eq!(lines[2], "  Temperature:  0.7");
    assert_eq!(lines[3], "  Max tokens:   4096");
    assert_eq!(lines[4], "  Streaming:    true");
    assert_eq!(lines[5], "  Telegram:     1234…(masked)");
    assert_eq!(lines[6], "  WebSocket:    127.0.0.1:8090");
    let mut short = Config::default();
    apply_telegram(&mut short, true, "abc".to_string(), "");
    assert_eq!(config_summary(&short)[5], "  Telegram:     abc…");
}

#[test]
fn token_prefix_check() {
    assert!(kestrel::setup::token_prefix_ok_exec("123456:ABC"));
    assert!(kestrel::setup::token_prefix_ok_exec("ab"));
    assert!(!kestrel::setup::token_prefix_ok_exec("abc\u{e9}z"));
    assert!(kestrel::setup::token_prefix_ok_exec("ab\u{e9}z"));
}
