use kestrel::documented::{
    all_documented_fields, apply_fix, check_and_fix, field_path, insert_missing_fields,
};
use toml_edit::DocumentMut;

#[test]
fn test_insert_into_empty_doc() {
    let mut doc = "".parse::<DocumentMut>().unwrap();
    let inserted = insert_missing_fields(&mut doc);
    assert!(!inserted.is_empty());
    assert!(inserted.contains(&"agent.model".to_string()));
    assert!(inserted.contains(&"dream.enabled".to_string()));
}

#[test]
fn test_no_insert_when_field_exists() {
    let toml = r#"
[agent]
model = "gpt-4o-mini"
"#;
    let mut doc = toml.parse::<DocumentMut>().unwrap();
    let inserted = insert_missing_fields(&mut doc);
    assert!(!inserted.contains(&"agent.model".to_string()));
    assert!(inserted.contains(&"agent.temperature".to_string()));
}

#[test]
fn test_preserves_existing_values() {
    let toml = r#"
[agent]
model = "my-custom-model"
temperature = 0.5
"#;
    let mut doc = toml.parse::<DocumentMut>().unwrap();
    insert_missing_fields(&mut doc);
    let agent = doc.get("agent").unwrap().as_table().unwrap();
    assert_eq!(agent.get("model").unwrap().as_str(), Some("my-custom-model"));
    let temp = agent.get("temperature").unwrap().as_value().unwrap().as_float().unwrap();
    assert!((temp - 0.5).abs() < f64::EPSILON);
}

#[test]
fn test_output_has_comments() {
    let mut doc = "".parse::<DocumentMut>().unwrap();
    insert_missing_fields(&mut doc);
    let output = doc.to_string();
    assert!(output.contains("默认模型名称"));
    assert!(output.contains("是否启用记忆整合"));
}

#[test]
fn test_all_fields_have_comments() {
    let fields = all_documented_fields();
    for f in &fields {
        assert!(!f.comment.is_empty(), "missing comment for {}", field_path(f));
    }
    assert_eq!(fields.len(), 29);
}

#[test]
fn fields_are_in_path_order() {
    let paths: Vec<String> = all_documented_fields().iter().map(field_path).collect();
    let mut sorted = paths.clone();
    sorted.sort();
    assert_eq!(paths, sorted);
    assert_eq!(paths[0], "_config_version");
}

#[test]
fn empty_doc_gets_every_field_and_values() {
    let mut doc = "".parse::<DocumentMut>().unwrap();
    let inserted = insert_missing_fields(&mut doc);
    assert_eq!(inserted.len(), 29);
    assert_eq!(doc["agent"]["max_tokens"].as_integer(), Some(4096));
    assert_eq!(doc["agent"]["temperature"].as_float(), Some(0.7));
    assert_eq!(doc["dream"]["enabled"].as_bool(), Some(true));
    assert_eq!(doc["_config_version"].as_integer(), Some(4));
    let second = insert_missing_fields(&mut doc);
    assert!(second.is_empty());
}

#[test]
fn check_and_fix_reports() {
    let (missing, fixed) = check_and_fix("", true).unwrap();
    assert_eq!(missing.len(), 29);
    assert!(fixed);
    let (_, not_fixed) = check_and_fix("", false).unwrap();
    assert!(!not_fixed);
    assert!(check_and_fix("not = [valid", true).is_err());
}

#[test]
fn apply_fix_returns_text() {
    let (missing, text) = apply_fix("[agent]\nmodel = \"x\"\n").unwrap();
    assert!(!missing.contains(&"agent.model".to_string()));
    assert!(text.contains("model = \"x\""));
    assert!(text.contains("# 生成温度"));
}

#[test]
fn inline_or_value_section_is_skipped() {
    let (missing, text) = apply_fix("agent = { model = \"x\" }\n").unwrap();
    assert!(!missing.iter().any(|p| p.starts_with("agent.")));
    assert!(missing.contains(&"dream.enabled".to_string()));
    assert!(text.contains("agent = { model = \"x\" }"));
    let (missing, _) = check_and_fix("agent = 3\n", true).unwrap();
    assert!(!missing.iter().any(|p| p.starts_with("agent.")));
    assert!(apply_fix("bad = [").is_err());
}

#[test]
fn filled_values_and_comments() {
    let (_, text) = apply_fix("").unwrap();
    assert!(text.contains("# \u{9ed8}\u{8ba4}\u{6a21}\u{578b}\u{540d}\u{79f0}\nmodel = \"gpt-4o\""));
    assert!(text.contains("max_tokens = 4096"));
    assert!(text.contains("temperature = 0.7"));
    assert!(text.contains("streaming = true"));
    let (_, again) = apply_fix(&text).unwrap();
    assert_eq!(again, text);
}
