use kestrel::keyed::KeyedMap;
use kestrel::lexical::{lex_less, sort_strings};
use kestrel::session::{MessageRole, Session, SessionEntry, SessionSource};
use kestrel::session_index::{decompose_source, message_columns, role_str, sanitize_fts_query};

#[test]
fn keyed_map_insert_replaces() {
    let mut m = KeyedMap::new();
    m.insert("a", 1);
    m.insert("b", 2);
    m.insert("a", 3);
    assert_eq!(m.len(), 2);
    assert_eq!(m.get("a"), Some(&3));
    assert!(m.contains("b"));
    assert!(!m.contains("c"));
    assert_eq!(m.key_list(), vec!["a".to_string(), "b".to_string()]);
}

#[test]
fn lexical_order() {
    assert!(lex_less("a", "b"));
    assert!(lex_less("ab", "abc"));
    assert!(!lex_less("b", "a"));
    assert!(!lex_less("a", "a"));
    let s = sort_strings(vec!["pear".into(), "apple".into(), "fig".into(), "apple".into()]);
    assert_eq!(s, vec!["apple", "apple", "fig", "pear"]);
}

#[test]
fn fts_queries_are_quoted() {
    assert_eq!(sanitize_fts_query("  hello world "), "\"hello world\"");
    assert_eq!(sanitize_fts_query("say \"hi\""), "\"say \"\"hi\"\"\"");
    assert_eq!(sanitize_fts_query("   "), "");
}

#[test]
fn index_columns() {
    assert_eq!(role_str(&MessageRole::Assistant), "assistant");
    let mut e = SessionEntry::new_default();
    e.content = "hi".into();
    let c = message_columns(&e);
    assert_eq!(c.role, "user");
    assert_eq!(c.fts_content, "hi");
    assert_eq!(c.token_count, 0);
    let mut s = Session::new("telegram:1".into());
    s.source = Some(SessionSource {
        platform: "telegram".into(),
        chat_id: "1".into(),
        chat_name: Some("Chat".into()),
        chat_type: "private".into(),
        user_id: None,
        user_name: Some("bob".into()),
        thread_id: None,
        chat_topic: None,
    });
    let cols = decompose_source(&s);
    assert_eq!(cols.platform, "telegram");
    assert_eq!(cols.chat_id.as_deref(), Some("1"));
    let local = decompose_source(&Session::new("x".into()));
    assert_eq!(local.platform, "local");
    assert_eq!(local.chat_type, "dm");
}

#[test]
fn new_entries_are_timestamped() {
    let e = SessionEntry::new_default();
    assert!(!e.timestamp.unwrap().is_empty());
}
