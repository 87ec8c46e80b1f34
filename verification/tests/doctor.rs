use kestrel::commands::{Severity, ValidationFinding};
use kestrel::config::{Config, TelegramConfig, WebSocketConfig};
use kestrel::config_check::validate_report;
use kestrel::doctor::{
    bot_username,
    doctor_summary, first_line_of, no_providers_report, probe_error_report, probe_model,
    reply_preview, schema_report, telegram_probe, telegram_status_report, websocket_probe,
    DoctorTally, TelegramProbe, WebSocketProbe,
};

fn finding(sev: Severity, path: &str, msg: &str) -> ValidationFinding {
    ValidationFinding { severity: sev, path: path.to_string(), message: msg.to_string() }
}

fn tg(token: &str, enabled: bool) -> TelegramConfig {
    TelegramConfig {
        token: token.to_string(),
        allowed_users: vec![],
        admin_users: vec![],
        enabled,
        streaming: true,
        proxy: None,
    }
}

#[test]
fn summary_lines() {
    assert_eq!(doctor_summary(&DoctorTally { errors: 0, warnings: 0 }), vec!["All checks passed."]);
    assert_eq!(
        doctor_summary(&DoctorTally { errors: 2, warnings: 1 }),
        vec!["2 error(s) found.", "1 warning(s) found."]
    );
    assert_eq!(doctor_summary(&DoctorTally { errors: 0, warnings: 3 }), vec!["3 warning(s) found."]);
}

#[test]
fn telegram_probe_decisions() {
    let mut c = Config::default();
    assert!(matches!(telegram_probe(&c), TelegramProbe::NotConfigured));
    c.channels.telegram = Some(tg("", true));
    assert!(matches!(telegram_probe(&c), TelegramProbe::NotConfigured));
    c.channels.telegram = Some(tg("123:ABC", false));
    assert!(matches!(telegram_probe(&c), TelegramProbe::Disabled));
    c.channels.telegram = Some(tg("123:ABC", true));
    match telegram_probe(&c) {
        TelegramProbe::Probe { url, proxy } => {
            assert_eq!(url, "https://api.telegram.org/bot123:ABC/getMe");
            assert!(proxy.is_none());
        }
        _ => panic!("expected a probe"),
    }
}

#[test]
fn telegram_status_lines() {
    let mut t = DoctorTally { errors: 0, warnings: 0 };
    assert!(telegram_status_report(&mut t, 200, "200 OK").is_none());
    assert_eq!(t.errors, 0);
    assert_eq!(
        telegram_status_report(&mut t, 401, "401 Unauthorized").unwrap(),
        "FAIL — unauthorized (invalid bot token)"
    );
    assert_eq!(telegram_status_report(&mut t, 404, "404 Not Found").unwrap(), "FAIL — HTTP 404 Not Found");
    assert_eq!(t.errors, 2);
}

#[test]
fn first_lines_of_errors() {
    assert_eq!(first_line_of("one\ntwo"), "one");
    assert_eq!(first_line_of("one\r\ntwo"), "one");
    assert_eq!(first_line_of("single"), "single");
    assert_eq!(first_line_of(""), "");
    assert_eq!(first_line_of("\nrest"), "");
    let mut t = DoctorTally { errors: 0, warnings: 0 };
    assert_eq!(probe_error_report(&mut t, "connect failed\ndetails"), "FAIL — connect failed");
    assert_eq!(t.errors, 1);
}

#[test]
fn websocket_probe_decisions() {
    let mut c = Config::default();
    match websocket_probe(&c) {
        WebSocketProbe::Disabled { addr } => assert_eq!(addr, "127.0.0.1:8090"),
        _ => panic!("expected disabled"),
    }
    c.channels.websocket = Some(WebSocketConfig {
        enabled: true,
        listen_addr: "0.0.0.0:9".into(),
        max_clients: 1,
        max_message_size: 1,
    });
    assert!(matches!(websocket_probe(&c), WebSocketProbe::Enabled { .. }));
}

#[test]
fn provider_probe_helpers() {
    assert_eq!(probe_model("", "gpt-4o"), "gpt-4o");
    assert_eq!(probe_model("m1", "gpt-4o"), "m1");
    assert_eq!(reply_preview(&None), "(empty)");
    assert_eq!(reply_preview(&Some("hi".into())), "hi");
    let long = "x".repeat(40);
    assert_eq!(reply_preview(&Some(long)).len(), 30);
    let mut t = DoctorTally { errors: 0, warnings: 0 };
    assert_eq!(no_providers_report(&mut t), "  No providers configured.");
    assert_eq!(t.warnings, 1);
}

#[test]
fn schema_lines_and_counts() {
    let mut t = DoctorTally { errors: 0, warnings: 0 };
    assert_eq!(schema_report(&mut t, &vec![]), vec!["  Schema:         pass"]);
    let fs = vec![finding(Severity::Error, "agent.model", "empty"), finding(Severity::Warning, "channels", "none")];
    let lines = schema_report(&mut t, &fs);
    assert_eq!(lines[0], "  Schema Error: [agent.model] empty — FAIL");
    assert_eq!(lines[1], "  Schema Warning: [channels] none — WARN");
    assert_eq!((t.errors, t.warnings), (1, 1));
}

#[test]
fn validate_report_lines() {
    let (lines, fail) = validate_report(&vec![]);
    assert_eq!(lines, vec!["Configuration is valid. No issues found."]);
    assert!(!fail);
    let fs = vec![finding(Severity::Warning, "a", "w")];
    let (lines, fail) = validate_report(&fs);
    assert_eq!(lines, vec!["Warnings (1):", "  [WARNING] a: w", "\nConfiguration is valid with 1 warning(s)."]);
    assert!(!fail);
    let fs = vec![finding(Severity::Error, "b", "e"), finding(Severity::Warning, "a", "w")];
    let (lines, fail) = validate_report(&fs);
    assert_eq!(
        lines,
        vec![
            "Warnings (1):",
            "  [WARNING] a: w",
            "Errors (1):",
            "  [ERROR] b: e",
            "\nConfiguration has 1 error(s). Fix them before running."
        ]
    );
    assert!(fail);
}

#[test]
fn bot_username_from_get_me() {
    assert_eq!(bot_username(r#"{"ok":true,"result":{"username":"kbot"}}"#).as_deref(), Some("kbot"));
    assert_eq!(bot_username(r#"{"ok":true,"result":{}}"#).as_deref(), Some("unknown"));
    assert_eq!(bot_username(r#"{"result":{"username":5}}"#).as_deref(), Some("unknown"));
    assert_eq!(bot_username("not json"), None);
}
