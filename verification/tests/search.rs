use kestrel::search::{
    file_too_large, glob_full_pattern, glob_report, grep_file_content, grep_report, grep_request,
    should_descend, split_lines, GlobTool, GrepArgs, GrepTool, GrepWalk, ToolError,
};

fn args(pattern: Option<&str>) -> GrepArgs {
    GrepArgs {
        pattern: pattern.map(|s| s.to_string()),
        path: None,
        name_filter: None,
        context: None,
        max_results: None,
    }
}

fn grep(content: &str, pattern: &str, context: usize, max: usize) -> String {
    let req = grep_request(&args(Some(pattern))).ok().unwrap();
    let mut results = Vec::new();
    grep_file_content("test.txt", content, &req.pattern, context, &mut results, max);
    grep_report(&results)
}

#[test]
fn test_grep_tool_metadata() {
    let tool = GrepTool::new();
    assert_eq!(tool.name(), "grep");
    assert!(!tool.description().is_empty());
}

#[test]
fn test_grep_tool_default() {
    let tool = GrepTool;
    assert_eq!(tool.name(), "grep");
    let d = GrepTool::default();
    assert_eq!(d.name(), "grep");
}

#[test]
fn test_glob_tool_metadata() {
    let tool = GlobTool::new();
    assert_eq!(tool.name(), "glob");
    assert!(!tool.description().is_empty());
}

#[test]
fn test_glob_tool_default() {
    let tool = GlobTool;
    assert_eq!(tool.name(), "glob");
    assert_eq!(GlobTool::default().name(), "glob");
}

#[test]
fn grep_uses_regex_semantics() {
    assert!(grep("hello\nhallo\nhullo!\n", "^h.llo$", 0, 10).contains("hallo"));
    assert!(!grep("hello\nhallo\nhullo!\n", "^h.llo$", 0, 10).contains("hullo!"));
    assert!(grep_request(&args(Some("("))).is_err());
}

#[test]
fn test_grep_tool_file_search() {
    let r = grep("line one\nhello world\nline three\nhello again\n", "hello", 0, 100);
    assert!(r.contains("hello world"));
    assert!(r.contains("hello again"));
    assert!(!r.contains("line one"));
}

#[test]
fn test_grep_tool_no_matches() {
    assert_eq!(grep("foo\nbar\nbaz\n", "notfound", 2, 100), "No matches found.");
}

#[test]
fn test_grep_tool_with_context() {
    let r = grep("line1\nline2\nMATCH\nline4\nline5\n", "MATCH", 1, 100);
    assert!(r.contains("line2"));
    assert!(r.contains("MATCH"));
    assert!(r.contains("line4"));
    assert!(!r.contains("line1"));
    assert!(!r.contains("line5"));
}

#[test]
fn test_grep_tool_max_results() {
    let r = grep("match1\nmatch2\nmatch3\nmatch4\nmatch5\n", "match", 0, 2);
    assert_eq!(r.matches("test.txt").count(), 2);
    assert!(r.contains("match1"));
    assert!(!r.contains("match3"));
}

#[test]
fn test_grep_tool_invalid_regex() {
    match grep_request(&args(None)) {
        Err(ToolError::Validation(m)) => assert_eq!(m, "Missing 'pattern'"),
        _ => panic!("expected a validation error"),
    }
    match grep_request(&args(Some("[invalid"))) {
        Err(ToolError::Validation(m)) => assert!(m.contains("Invalid regex")),
        _ => panic!("expected a validation error"),
    }
    let ok = grep_request(&args(Some("a+"))).ok().unwrap();
    assert_eq!(ok.path, ".");
    assert_eq!(ok.context, 2);
    assert_eq!(ok.max_results, 100);
}

#[test]
fn split_lines_like_str_lines() {
    assert_eq!(split_lines("a\r\nb\n\nc"), vec!["a", "b", "", "c"]);
    assert_eq!(split_lines("x\n"), vec!["x"]);
    assert!(split_lines("").is_empty());
}

#[test]
fn directory_and_size_filters() {
    assert!(should_descend("src"));
    assert!(!should_descend(".git"));
    assert!(!should_descend("node_modules"));
    assert!(!should_descend("target"));
    assert!(!should_descend("__pycache__"));
    assert!(!file_too_large(10));
    assert!(file_too_large(u64::MAX));
}

#[test]
fn glob_pattern_and_report() {
    assert_eq!(glob_full_pattern(Some("*.rs"), Some("/tmp/x")).ok().unwrap(), "/tmp/x/*.rs");
    assert_eq!(glob_full_pattern(Some("/abs/*.rs"), Some("/tmp")).ok().unwrap(), "/abs/*.rs");
    assert_eq!(glob_full_pattern(Some("*.rs"), None).ok().unwrap(), "./*.rs");
    assert!(glob_full_pattern(None, None).is_err());
    assert_eq!(glob_report(&vec![], 5), "No files matched the pattern.");
    let found: Vec<String> = vec!["a.rs".into(), "b.rs".into(), "c.rs".into()];
    assert_eq!(glob_report(&found, 5), "a.rs\nb.rs\nc.rs");
    assert_eq!(glob_report(&found, 2), "a.rs\nb.rs\n... (truncated at 2 entries)");
}

#[test]
fn grep_walk_limits() {
    let mut w = GrepWalk::new();
    assert!(w.may_read_dir());
    assert!(!w.next_entry(5, 5));
    assert_eq!(w.entry_count, 0);
    assert!(w.next_entry(0, 5));
    assert!(!w.enter(".git"));
    assert!(w.enter("src"));
    assert_eq!(w.depth, 1);
    w.leave();
    w.depth = 11;
    assert!(!w.may_read_dir());
    w.entry_count = 10_000;
    assert!(!w.next_entry(0, 5));
}
