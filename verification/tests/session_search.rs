use kestrel::session_search::{
    gap_text, needs_tail, read_plan, tool_description, tool_name, truncate_str,
    ReadPlan,
};

#[test]
fn test_truncate_str() {
    assert_eq!(truncate_str("hello", 10), "hello");
    assert_eq!(truncate_str("hello world", 5), "hello...");
    assert_eq!(truncate_str("你好世界test", 6), "你好...");
}

#[test]
fn test_tool_metadata() {
    assert_eq!(tool_name(), "session_search");
    assert!(tool_description().len() > 20);
}

#[test]
fn truncate_str_exact_fit_and_split_char() {
    assert_eq!(truncate_str("abc", 3), "abc");
    assert_eq!(truncate_str("你好", 4), "你...");
    assert_eq!(truncate_str("", 0), "");
}

#[test]
fn gap_and_batch_helpers() {
    assert_eq!(gap_text(3), "... 3 earlier messages omitted ...");
    assert!(needs_tail(10, 10));
    assert!(!needs_tail(10, 4));
}

#[test]
fn read_plans() {
    assert_eq!(read_plan(10, 4, 4), ReadPlan::HeadOnly);
    assert_eq!(read_plan(10, 10, 12), ReadPlan::WholeSession { count: 12 });
    assert_eq!(
        read_plan(10, 10, 30),
        ReadPlan::HeadAndTail { head_count: 10, tail_start: 25, tail_len: 5, omitted: 15 }
    );
    // 200 messages, limit 30: head 0..30, gap of 155, then the last 15.
    assert_eq!(
        read_plan(30, 30, 200),
        ReadPlan::HeadAndTail { head_count: 30, tail_start: 185, tail_len: 15, omitted: 155 }
    );
}
