use kestrel::memory_rescue::{
    extract_rescue_candidates, rescue_candidate, truncate_for_memory, MemoryCategory,
    MemoryRescueHook,
};
use kestrel::session::{MessageRole, SessionEntry};

fn entry(role: MessageRole, content: &str) -> SessionEntry {
    let mut e = SessionEntry::new_default();
    e.role = role;
    e.content = content.to_string();
    e
}

#[test]
fn test_extract_error_lessons() {
    let messages = vec![entry(
        MessageRole::Assistant,
        "The build failed because of a missing dependency error",
    )];
    let candidates = extract_rescue_candidates(&messages);
    assert_eq!(candidates.len(), 1);
    assert_eq!(candidates[0].1, MemoryCategory::ErrorLesson);
}

#[test]
fn test_extract_decisions() {
    let messages = vec![entry(MessageRole::User, "I decided to use PostgreSQL for the database")];
    let candidates = extract_rescue_candidates(&messages);
    assert_eq!(candidates.len(), 1);
    assert_eq!(candidates[0].1, MemoryCategory::Fact);
}

#[test]
fn test_skip_short_messages() {
    let messages = vec![entry(MessageRole::User, "ok")];
    assert!(extract_rescue_candidates(&messages).is_empty());
}

#[test]
fn test_skip_tool_results() {
    let messages = vec![entry(
        MessageRole::Tool,
        "Command executed successfully with output showing the error was resolved",
    )];
    assert!(extract_rescue_candidates(&messages).is_empty());
}

#[test]
fn test_truncate_for_memory() {
    let long = "a".repeat(600);
    let truncated = truncate_for_memory(&long);
    assert!(truncated.len() <= 504);
    assert!(truncated.ends_with("..."));
    assert_eq!(truncated.len(), 503);
    assert_eq!(truncate_for_memory("short"), "short");
}

#[test]
fn test_dedup_candidates() {
    let long_prefix = "I decided to use PostgreSQL for the database because of the performance \
         and reliability and scalability requirements of our growing application stack ";
    let messages = vec![
        entry(MessageRole::User, &format!("{}version one", long_prefix)),
        entry(MessageRole::User, &format!("{}version two", long_prefix)),
    ];
    assert_eq!(extract_rescue_candidates(&messages).len(), 1);
}

#[test]
fn long_user_message_becomes_agent_note() {
    let c = rescue_candidate(&entry(
        MessageRole::User,
        "   Please remember that the staging server lives in Frankfurt   ",
    ));
    let (text, cat) = c.unwrap();
    assert_eq!(cat, MemoryCategory::AgentNote);
    assert_eq!(text, "Please remember that the staging server lives in Frankfurt");
}

#[test]
fn assistant_small_talk_is_not_rescued() {
    assert!(rescue_candidate(&entry(
        MessageRole::Assistant,
        "Sure, happy to help with anything else today"
    ))
    .is_none());
}

#[test]
fn keywords_are_case_insensitive() {
    let c = rescue_candidate(&entry(MessageRole::Assistant, "We found a BUG in the parser module today")).unwrap();
    assert_eq!(c.1, MemoryCategory::ErrorLesson);
}

#[test]
fn hook_keeps_store() {
    let h = MemoryRescueHook::new(7u32);
    assert_eq!(*h.store(), 7);
    assert_eq!(h.name(), "memory_rescue");
}
