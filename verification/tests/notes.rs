use kestrel::notes::NotesManager;
use kestrel::session::Session;

fn make_session() -> Session {
    Session::new("test:notes".to_string())
}

#[test]
fn test_save_and_load_note() {
    let mut session = make_session();
    NotesManager::save_note(
        &mut session,
        "user_preference".to_string(),
        "Prefers concise answers".to_string(),
        Some("preferences".to_string()),
    )
    .unwrap();
    let notes = NotesManager::load_notes(&session);
    assert_eq!(notes.len(), 1);
    assert_eq!(notes[0].key, "user_preference");
    assert_eq!(notes[0].content, "Prefers concise answers");
    assert_eq!(notes[0].category, Some("preferences".to_string()));
}

#[test]
fn test_save_multiple_notes() {
    let mut session = make_session();
    NotesManager::save_note(&mut session, "note1".to_string(), "First note".to_string(), None).unwrap();
    NotesManager::save_note(&mut session, "note2".to_string(), "Second note".to_string(), None).unwrap();
    assert_eq!(NotesManager::load_notes(&session).len(), 2);
}

#[test]
fn test_update_existing_note() {
    let mut session = make_session();
    NotesManager::save_note(&mut session, "key1".to_string(), "Original".to_string(), None).unwrap();
    NotesManager::save_note(&mut session, "key1".to_string(), "Updated".to_string(), None).unwrap();
    let notes = NotesManager::load_notes(&session);
    assert_eq!(notes.len(), 1);
    assert_eq!(notes[0].content, "Updated");
    assert!(!notes[0].created_at.is_empty());
}

#[test]
fn notes_test_delete_note() {
    let mut session = make_session();
    NotesManager::save_note(&mut session, "to_delete".to_string(), "Will be deleted".to_string(), None)
        .unwrap();
    let deleted = NotesManager::delete_note(&mut session, "to_delete").unwrap();
    assert!(deleted);
    assert!(NotesManager::load_notes(&session).is_empty());
}

#[test]
fn test_delete_nonexistent_note() {
    let mut session = make_session();
    let deleted = NotesManager::delete_note(&mut session, "nope").unwrap();
    assert!(!deleted);
}

#[test]
fn notes_test_format_notes_context_empty() {
    let session = make_session();
    assert!(NotesManager::format_notes_context(&session).is_none());
}

#[test]
fn test_format_notes_context_with_notes() {
    let mut session = make_session();
    NotesManager::save_note(&mut session, "lang".to_string(), "Rust".to_string(), Some("tech".to_string()))
        .unwrap();
    NotesManager::save_note(&mut session, "style".to_string(), "Concise".to_string(), None).unwrap();
    let ctx = NotesManager::format_notes_context(&session).unwrap();
    assert!(ctx.contains("## Session Notes"));
    assert!(ctx.contains("[tech] lang: Rust"));
    assert!(ctx.contains("style: Concise"));
}

#[test]
fn notes_test_notes_by_category() {
    let mut session = make_session();
    NotesManager::save_note(&mut session, "n1".to_string(), "First".to_string(), Some("cat_a".to_string()))
        .unwrap();
    NotesManager::save_note(&mut session, "n2".to_string(), "Second".to_string(), Some("cat_b".to_string()))
        .unwrap();
    NotesManager::save_note(&mut session, "n3".to_string(), "Third".to_string(), Some("cat_a".to_string()))
        .unwrap();
    assert_eq!(NotesManager::notes_by_category(&session, "cat_a").len(), 2);
    assert_eq!(NotesManager::notes_by_category(&session, "cat_b").len(), 1);
}

#[test]
fn test_notes_persist_across_session_operations() {
    let mut session = make_session();
    session.add_user_message("hello".to_string());
    NotesManager::save_note(&mut session, "persistent".to_string(), "This survives".to_string(), None)
        .unwrap();
    session.add_assistant_message("response".to_string());
    let notes = NotesManager::load_notes(&session);
    assert_eq!(notes.len(), 1);
    assert_eq!(notes[0].content, "This survives");
}

#[test]
fn test_extract_notes_from_response_simple() {
    let mut session = make_session();
    let response = "Got it! [NOTE:user_lang:preference]Rust[/NOTE] noted.";
    let count = NotesManager::extract_notes_from_response(&mut session, response);
    assert_eq!(count, 1);
    let notes = NotesManager::load_notes(&session);
    assert_eq!(notes.len(), 1);
    assert_eq!(notes[0].key, "user_lang");
    assert_eq!(notes[0].content, "Rust");
    assert_eq!(notes[0].category, Some("preference".to_string()));
}

#[test]
fn test_extract_notes_without_category() {
    let mut session = make_session();
    let count = NotesManager::extract_notes_from_response(&mut session, "[NOTE:reminder]Check the deploy at 5pm[/NOTE]");
    assert_eq!(count, 1);
    let notes = NotesManager::load_notes(&session);
    assert_eq!(notes[0].category, None);
    assert_eq!(notes[0].content, "Check the deploy at 5pm");
}

#[test]
fn test_extract_multiple_notes() {
    let mut session = make_session();
    let count = NotesManager::extract_notes_from_response(
        &mut session,
        "[NOTE:a:cat1]First[/NOTE] and [NOTE:b:cat2]Second[/NOTE]",
    );
    assert_eq!(count, 2);
    assert_eq!(NotesManager::load_notes(&session).len(), 2);
}

#[test]
fn test_extract_notes_no_match() {
    let mut session = make_session();
    let count = NotesManager::extract_notes_from_response(&mut session, "No notes here, just a regular response.");
    assert_eq!(count, 0);
    assert!(NotesManager::load_notes(&session).is_empty());
}

#[test]
fn test_compact_if_needed_under_limit() {
    let mut session = make_session();
    for i in 0..10 {
        session.save_note(format!("n{}", i), format!("note {}", i), None);
    }
    assert!(!NotesManager::compact_if_needed(&mut session));
    assert_eq!(session.notes.len(), 10);
}

#[test]
fn note_grammar_edges() {
    let mut session = make_session();
    // content must end on the same line; an unterminated block is skipped
    let n = NotesManager::extract_notes_from_response(
        &mut session,
        "[NOTE:a]line one\nline two[/NOTE] [NOTE:b:c:d]x[/NOTE] [NOTE:]y[/NOTE] [NOTE:e:]z[/NOTE]",
    );
    assert_eq!(n, 1);
    let notes = NotesManager::load_notes(&session);
    assert_eq!(notes[0].key, "b");
    assert_eq!(notes[0].category.as_deref(), Some("c:d"));
    assert_eq!(notes[0].content, "x");
}
