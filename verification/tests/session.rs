use kestrel::session::{Message, MessageRole, Session, SessionEntry, MAX_NOTES_BEFORE_COMPACTION};

#[test]
fn test_session_new() {
    let session = Session::new("test:key".to_string());
    assert_eq!(session.key, "test:key");
    assert!(session.messages.is_empty());
    assert!(session.source.is_none());
}

#[test]
fn test_session_add_messages() {
    let mut session = Session::new("test:key".to_string());
    session.add_system_message("system prompt".to_string());
    session.add_user_message("hello".to_string());
    session.add_assistant_message("hi".to_string());
    session.add_tool_result("call_1".to_string(), "result data".to_string());

    assert_eq!(session.messages.len(), 4);
    assert_eq!(session.messages[0].role, MessageRole::System);
    assert_eq!(session.messages[1].role, MessageRole::User);
    assert_eq!(session.messages[2].role, MessageRole::Assistant);
    assert_eq!(session.messages[3].role, MessageRole::Tool);
    assert_eq!(session.messages[3].tool_call_id, Some("call_1".to_string()));
}

#[test]
fn test_session_to_messages() {
    let mut session = Session::new("test:key".to_string());
    session.add_system_message("system".to_string());
    session.add_user_message("hello".to_string());
    session.add_assistant_message("world".to_string());

    let messages: Vec<Message> = session.to_messages();
    assert_eq!(messages.len(), 3);
    assert_eq!(messages[0].role, MessageRole::System);
    assert_eq!(messages[0].content, "system");
    assert_eq!(messages[1].role, MessageRole::User);
    assert_eq!(messages[1].content, "hello");
    assert_eq!(messages[2].role, MessageRole::Assistant);
    assert_eq!(messages[2].content, "world");
}

#[test]
fn test_session_truncate_preserves_system() {
    let mut session = Session::new("test:key".to_string());
    session.add_system_message("system prompt".to_string());
    for i in 0..10 {
        session.add_user_message(format!("message {}", i));
    }
    assert_eq!(session.messages.len(), 11);
    session.truncate(5);
    assert_eq!(session.messages.len(), 6);
    assert_eq!(session.messages[0].role, MessageRole::System);
    assert_eq!(session.messages[0].content, "system prompt");
    assert_eq!(session.messages[1].content, "message 5");
    assert_eq!(session.messages[5].content, "message 9");
    assert!(session.metadata.truncated);
}

#[test]
fn test_session_truncate_noop_when_small() {
    let mut session = Session::new("test:key".to_string());
    session.add_user_message("a".to_string());
    session.add_user_message("b".to_string());
    session.add_user_message("c".to_string());
    session.truncate(10);
    assert_eq!(session.messages.len(), 3);
    assert!(!session.metadata.truncated);
}

#[test]
fn test_session_estimated_tokens() {
    let mut session = Session::new("test:key".to_string());
    session.add_user_message("abcd1234".to_string());
    session.add_assistant_message("hello world!".to_string());
    let tokens = session.estimated_tokens();
    assert_eq!(tokens, (8 / 4) + (12 / 4));
    assert_eq!(tokens, 5);
}

#[test]
fn test_session_reset() {
    let mut session = Session::new("test:key".to_string());
    session.add_user_message("hello".to_string());
    session.add_assistant_message("world".to_string());
    session.metadata.truncated = true;
    session.metadata.turn_count = 5;
    session.reset();
    assert!(session.messages.is_empty());
    assert!(!session.metadata.truncated);
    assert_eq!(session.metadata.turn_count, 0);
}

#[test]
fn test_session_entry_default() {
    let entry = SessionEntry::new_default();
    assert_eq!(entry.role, MessageRole::User);
    assert!(entry.content.is_empty());
    assert!(entry.name.is_none());
    assert!(entry.tool_call_id.is_none());
    assert!(entry.tool_calls.is_none());
    assert!(entry.timestamp.is_some());
}

#[test]
fn test_session_new_has_empty_notes() {
    let session = Session::new("test:notes".to_string());
    assert!(session.notes.is_empty());
}

#[test]
fn test_save_and_get_note() {
    let mut session = Session::new("test:notes".to_string());
    session.save_note("lang".to_string(), "Rust".to_string(), Some("tech".to_string()));
    let note = session.get_note("lang").unwrap();
    assert_eq!(note.key, "lang");
    assert_eq!(note.content, "Rust");
    assert_eq!(note.category.as_deref(), Some("tech"));
    assert!(!note.created_at.is_empty());
}

#[test]
fn test_save_updates_existing() {
    let mut session = Session::new("test:notes".to_string());
    session.save_note("key1".to_string(), "v1".to_string(), None);
    session.save_note("key1".to_string(), "v2".to_string(), Some("cat".to_string()));
    assert_eq!(session.notes.len(), 1);
    let note = session.get_note("key1").unwrap();
    assert_eq!(note.content, "v2");
    assert_eq!(note.category.as_deref(), Some("cat"));
}

#[test]
fn test_get_note_missing() {
    let session = Session::new("test:notes".to_string());
    assert!(session.get_note("nope").is_none());
}

#[test]
fn types_test_delete_note() {
    let mut session = Session::new("test:notes".to_string());
    session.save_note("a".to_string(), "note a".to_string(), None);
    session.save_note("b".to_string(), "note b".to_string(), None);
    assert!(session.delete_note("a"));
    assert_eq!(session.notes.len(), 1);
    assert!(session.get_note("a").is_none());
}

#[test]
fn test_delete_note_missing() {
    let mut session = Session::new("test:notes".to_string());
    assert!(!session.delete_note("nope"));
}

#[test]
fn types_test_notes_by_category() {
    let mut session = Session::new("test:notes".to_string());
    session.save_note("n1".to_string(), "a".to_string(), Some("decision".to_string()));
    session.save_note("n2".to_string(), "b".to_string(), Some("preference".to_string()));
    session.save_note("n3".to_string(), "c".to_string(), Some("decision".to_string()));
    assert_eq!(session.notes_by_category("decision").len(), 2);
    assert_eq!(session.notes_by_category("preference").len(), 1);
}

#[test]
fn types_test_format_notes_context_empty() {
    let session = Session::new("test:notes".to_string());
    assert!(session.format_notes_context().is_none());
}

#[test]
fn test_format_notes_context() {
    let mut session = Session::new("test:notes".to_string());
    session.save_note("lang".to_string(), "Rust".to_string(), Some("tech".to_string()));
    session.save_note("style".to_string(), "Concise".to_string(), None);
    let ctx = session.format_notes_context().unwrap();
    assert!(ctx.contains("## Session Notes"));
    assert!(ctx.contains("[tech] lang: Rust"));
    assert!(ctx.contains("style: Concise"));
}

#[test]
fn test_compact_notes_noop_when_under_limit() {
    let mut session = Session::new("test:notes".to_string());
    for i in 0..10 {
        session.save_note(format!("n{}", i), format!("note {}", i), None);
    }
    assert!(!session.compact_notes());
    assert_eq!(session.notes.len(), 10);
}

#[test]
fn test_compact_notes_triggers_when_over_limit() {
    let mut session = Session::new("test:notes".to_string());
    for i in 0..(MAX_NOTES_BEFORE_COMPACTION + 10) {
        session.save_note(format!("n{}", i), format!("note {}", i), Some("general".to_string()));
    }
    assert_eq!(session.notes.len(), MAX_NOTES_BEFORE_COMPACTION + 10);
    let compacted = session.compact_notes();
    assert!(compacted);
    assert!(session.notes.len() < MAX_NOTES_BEFORE_COMPACTION + 10);
    assert!(session.get_note("_compacted").is_some());
}

#[test]
fn save_note_at_stamps_given_time() {
    let mut session = Session::new("k".to_string());
    session.save_note_at("a".to_string(), "x".to_string(), None, "T1".to_string());
    session.save_note_at("a".to_string(), "y".to_string(), None, "T2".to_string());
    let n = session.get_note("a").unwrap();
    assert_eq!(n.created_at, "T1");
    assert_eq!(n.updated_at, "T2");
    assert_eq!(n.content, "y");
}

#[test]
fn truncate_to_zero_keeps_only_system() {
    let mut session = Session::new("k".to_string());
    session.add_system_message("sys".to_string());
    session.add_user_message("u".to_string());
    session.truncate(0);
    assert_eq!(session.messages.len(), 1);
    assert_eq!(session.messages[0].content, "sys");
}
