use kestrel::commands::{
    build_summary, collect_settings, handle_history, handle_history_callback, handle_menu,
    handle_menu_callback, handle_settings, handle_settings_callback, handle_validate,
    matches_command, menu_keyboard, try_handle_command, Severity, ValidationFinding,
};
use kestrel::config::{ChannelToggle, Config, ProviderEntry, TelegramConfig};

fn no_findings() -> Vec<ValidationFinding> {
    Vec::new()
}

fn default_loaded() -> Result<Config, String> {
    Ok(Config::default())
}

fn with_openai() -> Config {
    let mut c = Config::default();
    c.providers.openai = Some(ProviderEntry {
        api_key: Some("sk-test".to_string()),
        ..ProviderEntry::default()
    });
    c
}

fn telegram(enabled: bool) -> TelegramConfig {
    TelegramConfig {
        token: "123:ABC".to_string(),
        allowed_users: Vec::new(),
        admin_users: Vec::new(),
        enabled,
        streaming: true,
        proxy: None,
    }
}

// -- matches_command tests ------------------------------------------------

#[test]
fn test_matches_command_exact() {
    assert!(matches_command("/validate", "validate"));
}

#[test]
fn test_matches_command_case_insensitive() {
    assert!(matches_command("/VALIDATE", "validate"));
    assert!(matches_command("/Validate", "validate"));
    assert!(matches_command("/vAlIdAtE", "validate"));
}

#[test]
fn test_matches_command_with_bot_mention() {
    assert!(matches_command("/validate@MyBot", "validate"));
    assert!(matches_command("/validate@some_bot_name", "validate"));
}

#[test]
fn test_matches_command_with_trailing_args() {
    assert!(matches_command("/validate --verbose", "validate"));
    assert!(matches_command("/validate extra stuff", "validate"));
}

#[test]
fn test_matches_command_no_match() {
    assert!(!matches_command("/help", "validate"));
    assert!(!matches_command("/start", "validate"));
    assert!(!matches_command("validate", "validate"));
    assert!(!matches_command("", "validate"));
    assert!(!matches_command("hello world", "validate"));
}

#[test]
fn matches_command_rejects_longer_command_name() {
    assert!(!matches_command("/validates", "validate"));
}

// -- try_handle_command tests --------------------------------------------

#[test]
fn test_try_handle_command_validate() {
    let result = try_handle_command("/validate", &default_loaded(), &no_findings());
    assert!(result.is_some());
    let resp = result.unwrap();
    assert!(resp.text.contains("Configuration"));
    assert!(resp.keyboard.is_none());
}

#[test]
fn test_try_handle_command_menu() {
    let result = try_handle_command("/menu", &default_loaded(), &no_findings());
    assert!(result.is_some());
    let resp = result.unwrap();
    assert_eq!(resp.text, "What would you like to do?");
    assert!(resp.keyboard.is_some());
    let kb = resp.keyboard.unwrap();
    assert_eq!(kb.inline_keyboard.len(), 2);
    assert_eq!(kb.inline_keyboard[0][0].text, "Status");
    assert_eq!(kb.inline_keyboard[0][1].text, "Help");
    assert_eq!(kb.inline_keyboard[1][0].text, "Validate Config");
    assert_eq!(kb.inline_keyboard[1][1].text, "Cancel");
}

#[test]
fn test_try_handle_command_other() {
    assert!(try_handle_command("/help", &default_loaded(), &no_findings()).is_none());
    assert!(try_handle_command("hello", &default_loaded(), &no_findings()).is_none());
    assert!(try_handle_command("", &default_loaded(), &no_findings()).is_none());
}

// -- handle_validate tests -----------------------------------------------

#[test]
fn test_handle_validate_default_config() {
    let result = handle_validate(&default_loaded(), &no_findings());
    assert!(result.contains("Configuration"));
    assert!(result.contains("Agent:"));
    assert!(result.contains("Providers:"));
}

#[test]
fn test_handle_validate_valid_config() {
    let mut c = with_openai();
    c.channels.telegram = Some(telegram(true));
    let result = handle_validate(&Ok(c), &no_findings());
    assert!(result.contains("Configuration"));
    assert!(result.contains("Agent:"));
    assert!(result.contains("openai"));
    assert!(result.contains("telegram"));
}

#[test]
fn test_handle_validate_invalid_config() {
    let mut c = Config::default();
    c.agent.model = String::new();
    let findings = vec![ValidationFinding {
        severity: Severity::Error,
        path: "agent.model".to_string(),
        message: "model must not be empty".to_string(),
    }];
    let result = handle_validate(&Ok(c), &findings);
    assert!(result.contains("error(s)") || result.contains("[ERROR]"));
}

#[test]
fn test_handle_validate_summary_shows_name() {
    let mut c = with_openai();
    c.name = Some("testbot".to_string());
    let result = handle_validate(&Ok(c), &no_findings());
    assert!(result.contains("Name: testbot"));
}

#[test]
fn test_handle_validate_summary_shows_unnamed() {
    let result = handle_validate(&Ok(with_openai()), &no_findings());
    assert!(result.contains("Name: unnamed"));
}

#[test]
fn test_handle_validate_summary_shows_providers() {
    let mut c = with_openai();
    c.providers.anthropic = Some(ProviderEntry {
        api_key: Some("sk-ant-test".to_string()),
        ..ProviderEntry::default()
    });
    let result = handle_validate(&Ok(c), &no_findings());
    assert!(result.contains("openai"));
    assert!(result.contains("anthropic"));
}

#[test]
fn test_handle_validate_summary_shows_channels() {
    let mut c = Config::default();
    c.channels.telegram = Some(telegram(true));
    c.channels.discord = Some(ChannelToggle { enabled: true });
    let result = handle_validate(&Ok(c), &no_findings());
    assert!(result.contains("telegram (enabled)"));
    assert!(result.contains("discord (enabled)"));
}

#[test]
fn test_handle_validate_summary_channels_disabled() {
    let mut c = Config::default();
    c.channels.telegram = Some(telegram(false));
    let result = handle_validate(&Ok(c), &no_findings());
    assert!(result.contains("telegram (disabled)"));
}

#[test]
fn test_handle_validate_no_providers() {
    let result = handle_validate(&default_loaded(), &no_findings());
    assert!(result.contains("Providers: (none)") || result.contains("error"));
}

#[test]
fn test_handle_validate_no_channels() {
    let result = handle_validate(&Ok(with_openai()), &no_findings());
    assert!(result.contains("Channels: (none)") || result.contains("Channel"));
}

#[test]
fn handle_validate_reports_load_failure() {
    let result = handle_validate(&Err("bad yaml".to_string()), &no_findings());
    assert!(result.starts_with("Failed to load configuration.\n\nError: bad yaml"));
}

#[test]
fn handle_validate_counts_errors_and_warnings() {
    let findings = vec![
        ValidationFinding {
            severity: Severity::Error,
            path: "agent.model".to_string(),
            message: "empty".to_string(),
        },
        ValidationFinding {
            severity: Severity::Warning,
            path: "channels".to_string(),
            message: "none configured".to_string(),
        },
    ];
    let result = handle_validate(&default_loaded(), &findings);
    assert!(result.contains("[ERROR] agent.model: empty"));
    assert!(result.contains("[WARNING] channels: none configured"));
}

#[test]
fn build_summary_lists_defaults() {
    let s = build_summary(&Config::default());
    assert!(s.contains("Agent: gpt-4o"));
    assert!(s.contains("Name: unnamed"));
    assert!(s.contains("Providers: (none)"));
    assert!(s.contains("Channels: (none)"));
}

// -- /menu tests ---------------------------------------------------------

#[test]
fn test_menu_keyboard_structure() {
    let kb = menu_keyboard();
    assert_eq!(kb.inline_keyboard.len(), 2);
    assert_eq!(kb.inline_keyboard[0].len(), 2);
    assert_eq!(kb.inline_keyboard[0][0].callback_data, Some("menu:status".to_string()));
    assert_eq!(kb.inline_keyboard[0][1].callback_data, Some("menu:help".to_string()));
    assert_eq!(kb.inline_keyboard[1].len(), 2);
    assert_eq!(kb.inline_keyboard[1][0].callback_data, Some("menu:validate".to_string()));
    assert_eq!(kb.inline_keyboard[1][1].callback_data, Some("menu:cancel".to_string()));
}

#[test]
fn handle_menu_shows_prompt() {
    let r = handle_menu();
    assert_eq!(r.text, "What would you like to do?");
    assert!(r.keyboard.is_some());
}

#[test]
fn test_handle_menu_callback_status() {
    let (text, kb) = handle_menu_callback("status", &Ok(with_openai()), &no_findings());
    assert!(text.contains("Agent:"));
    assert!(kb.is_some());
}

#[test]
fn test_handle_menu_callback_help() {
    let (text, kb) = handle_menu_callback("help", &default_loaded(), &no_findings());
    assert!(text.contains("/menu"));
    assert!(text.contains("/validate"));
    assert!(kb.is_some());
}

#[test]
fn test_handle_menu_callback_validate() {
    let (text, kb) = handle_menu_callback("validate", &Ok(with_openai()), &no_findings());
    assert!(text.contains("Configuration"));
    assert!(kb.is_some());
}

#[test]
fn test_handle_menu_callback_cancel() {
    let (text, kb) = handle_menu_callback("cancel", &default_loaded(), &no_findings());
    assert_eq!(text, "Menu closed.");
    assert!(kb.is_none());
}

#[test]
fn test_handle_menu_callback_unknown() {
    let (text, kb) = handle_menu_callback("nonexistent", &default_loaded(), &no_findings());
    assert!(text.contains("Unknown action"));
    assert!(kb.is_some());
}

// -- /settings tests -------------------------------------------------------

#[test]
fn test_try_handle_command_settings() {
    let result = try_handle_command("/settings", &Ok(with_openai()), &no_findings());
    assert!(result.is_some());
    let resp = result.unwrap();
    assert!(resp.text.contains("Settings"));
    assert!(resp.text.contains("page 1/"));
}

#[test]
fn test_handle_settings_single_page() {
    let resp = handle_settings_callback(&Ok(with_openai()), 0);
    assert!(resp.text.contains("Model:"));
    assert!(resp.text.contains("Settings"));
}

#[test]
fn test_handle_settings_first_page() {
    let resp = handle_settings_callback(&default_loaded(), 0);
    assert!(resp.text.contains("page 1/"));
    assert!(resp.text.contains("Name:"));
}

#[test]
fn test_handle_settings_page_clamped_to_last() {
    let resp = handle_settings_callback(&default_loaded(), 999);
    assert!(resp.text.contains("Settings"));
}

#[test]
fn test_handle_settings_shows_name() {
    let mut c = with_openai();
    c.name = Some("mybot".to_string());
    let resp = handle_settings_callback(&Ok(c), 0);
    assert!(resp.text.contains("mybot"));
}

#[test]
fn test_handle_settings_shows_providers() {
    let mut c = with_openai();
    c.providers.anthropic = Some(ProviderEntry {
        api_key: Some("sk-ant-test".to_string()),
        ..ProviderEntry::default()
    });
    let resp = handle_settings_callback(&Ok(c), 1);
    assert!(resp.text.contains("openai"));
    assert!(resp.text.contains("anthropic"));
}

#[test]
fn test_handle_settings_no_providers() {
    let resp = handle_settings_callback(&default_loaded(), 1);
    assert!(resp.text.contains("(none)") || resp.text.contains("Providers:"));
}

#[test]
fn collect_settings_has_seven_entries() {
    let v = collect_settings(&Config::default());
    assert_eq!(v.len(), 7);
    assert_eq!(v[0], "Name: (unnamed)");
}

#[test]
fn settings_pages_have_navigation() {
    let resp = handle_settings(&Config::default(), 0);
    assert!(resp.text.contains("page 1/2"));
    let kb = resp.keyboard.unwrap();
    assert!(kb.inline_keyboard[0].iter().any(|b| b.text.contains("Next")));
}

#[test]
fn settings_callback_reports_load_failure() {
    let resp = handle_settings_callback(&Err("oops".to_string()), 0);
    assert!(resp.text.contains("oops"));
}

// -- /history tests --------------------------------------------------------

#[test]
fn test_try_handle_command_history() {
    let result = try_handle_command("/history", &default_loaded(), &no_findings());
    assert!(result.is_some());
    let resp = result.unwrap();
    assert_eq!(resp.text, "No active sessions.");
    assert!(resp.keyboard.is_none());
}

#[test]
fn test_handle_history_empty() {
    let resp = handle_history(&[], 0);
    assert_eq!(resp.text, "No active sessions.");
    assert!(resp.keyboard.is_none());
}

#[test]
fn test_handle_history_single_page() {
    let keys: Vec<String> = vec!["telegram:123".to_string(), "discord:456".to_string()];
    let resp = handle_history(&keys, 0);
    assert!(resp.text.contains("Sessions"));
    assert!(resp.text.contains("telegram:123"));
    assert!(resp.text.contains("discord:456"));
    assert!(resp.keyboard.is_none());
}

#[test]
fn test_handle_history_multi_page() {
    let keys: Vec<String> = (0..12).map(|i| format!("session:{}", i)).collect();
    let resp = handle_history(&keys, 0);
    assert!(resp.text.contains("page 1/"));
    assert!(resp.keyboard.is_some());
    let kb = resp.keyboard.unwrap();
    let row = &kb.inline_keyboard[0];
    assert!(row.iter().any(|b| b.text.contains("Next")));
}

#[test]
fn test_handle_history_second_page() {
    let keys: Vec<String> = (0..12).map(|i| format!("session:{}", i)).collect();
    let resp = handle_history(&keys, 1);
    assert!(resp.text.contains("page 2/"));
    assert!(resp.text.contains("session:5"));
    assert!(!resp.text.contains("session:4"));
}

#[test]
fn test_handle_history_page_clamped() {
    let keys: Vec<String> = vec!["a".to_string(), "b".to_string()];
    let resp = handle_history(&keys, 999);
    assert!(resp.text.contains("a"));
}

#[test]
fn test_handle_history_callback_delegates() {
    let keys: Vec<String> = vec!["x".to_string(), "y".to_string()];
    let resp = handle_history_callback(&keys, 0);
    assert!(resp.text.contains("x"));
    assert!(resp.text.contains("y"));
}

#[test]
fn test_handle_history_shows_index_numbers() {
    let keys: Vec<String> = vec!["alpha".to_string(), "beta".to_string(), "gamma".to_string()];
    let resp = handle_history(&keys, 0);
    assert!(resp.text.contains("1. alpha"));
    assert!(resp.text.contains("2. beta"));
    assert!(resp.text.contains("3. gamma"));
}

#[test]
fn history_last_page_has_prev_only() {
    let keys: Vec<String> = (0..12).map(|i| format!("s{}", i)).collect();
    let resp = handle_history(&keys, 2);
    assert!(resp.text.contains("page 3/3"));
    let kb = resp.keyboard.unwrap();
    assert!(kb.inline_keyboard[0].iter().any(|b| b.text.contains("Prev")));
    assert!(!kb.inline_keyboard[0].iter().any(|b| b.text.contains("Next")));
}
