use kestrel::config::Config;
use kestrel::session::MessageRole;
use kestrel::subagent::{allowed_tools, batch_summary, structured_notes, task_agent_settings, TaskNote};
use kestrel::subagent::{
    agent_error_output, assign_task_ids, batch_totals, default_max_concurrent,
    default_per_task_timeout, sub_agent_system_prompt, task_error_output, task_messages,
    timeout_output, ParallelScheduler, ParallelSpawnConfig, SubAgentTask, TaskStatus, TaskTracker,
};

fn task(id: &str, prompt: &str) -> SubAgentTask {
    SubAgentTask {
        id: id.to_string(),
        prompt: prompt.to_string(),
        context: None,
        model_override: None,
        max_tokens: None,
    }
}

#[test]
fn test_parallel_config_default() {
    let c = ParallelSpawnConfig::default();
    assert_eq!(c.max_concurrent, default_max_concurrent());
    assert_eq!(c.per_task_timeout_secs, default_per_task_timeout());
    assert!(c.total_timeout_secs.is_none());
}

#[test]
fn test_parallel_spawn_auto_ids() {
    let tasks = assign_task_ids(vec![task("", "a"), task("mine", "b"), task("", "c")]);
    assert_eq!(tasks[0].id, "task-1");
    assert_eq!(tasks[1].id, "mine");
    assert_eq!(tasks[2].id, "task-3");
    assert_eq!(tasks[2].prompt, "c");
}

#[test]
fn tracker_lifecycle() {
    let mut t = TaskTracker::new();
    t.register("t1", "name", "desc");
    assert_eq!(t.get_status("t1"), Some(TaskStatus::Running));
    t.complete("t1", "done".to_string());
    assert_eq!(t.get_status("t1"), Some(TaskStatus::Completed("done".to_string())));
    t.register("t2", "n2", "d2");
    t.fail("t2", "boom".to_string());
    assert_eq!(t.get_status("t2"), Some(TaskStatus::Failed("boom".to_string())));
    assert!(t.get_status("missing").is_none());
    let list = t.list_tasks();
    assert_eq!(list.len(), 2);
    assert_eq!(list[0].0, "t1");
}

#[test]
fn tracker_cancel() {
    let mut t = TaskTracker::new();
    assert!(!t.cancel("nope"));
    t.register("t1", "n", "d");
    assert!(t.cancel("t1"));
    assert!(matches!(t.get_status("t1"), Some(TaskStatus::Failed(_))));
}

#[test]
fn messages_and_outputs() {
    let v = task_messages(&Some("ctx".to_string()), "do it");
    assert_eq!(v.len(), 2);
    assert_eq!(v[0].content, "Context:\nctx");
    assert_eq!(v[1].content, "do it");
    assert_eq!(v[1].role, MessageRole::User);
    assert_eq!(task_messages(&None, "p").len(), 1);
    assert!(sub_agent_system_prompt().starts_with("You are a focused sub-agent"));
    assert_eq!(agent_error_output("x"), "Agent error: x");
    assert_eq!(timeout_output(30), "Timeout after 30s");
    assert_eq!(task_error_output("y"), "Task error: y");
}

#[test]
fn scheduler_respects_limit_and_deadline() {
    let (mut s, first) = ParallelScheduler::start(5, 2);
    assert_eq!(first, 2);
    assert_eq!(s.on_task_finished(false), Some(2));
    assert_eq!(s.on_task_finished(false), Some(3));
    assert_eq!(s.on_task_finished(true), None);
    assert!(s.stopped);
    assert_eq!(s.on_task_finished(false), None);
    let (mut all, n) = ParallelScheduler::start(2, 8);
    assert_eq!(n, 2);
    assert_eq!(all.on_task_finished(false), None);
}

#[test]
fn test_parallel_spawn_empty_tasks() {
    let (_, n) = ParallelScheduler::start(0, 4);
    assert_eq!(n, 0);
    assert_eq!(batch_totals(&vec![], &vec![]), (0, 0, 0));
}

#[test]
fn batch_statistics() {
    assert_eq!(batch_totals(&vec![true, false, true], &vec![10, 0, 5]), (2, 1, 15));
}

#[test]
fn test_structured_notes() {
    let notes = vec![
        TaskNote { id: "a".into(), success: true, output: "done".into(), duration_text: "1.5".into(), tokens_used: 10 },
        TaskNote { id: "b".into(), success: false, output: "boom".into(), duration_text: "0.2".into(), tokens_used: 0 },
    ];
    let text = structured_notes(&notes, 1, 1, "2.0", 10);
    assert!(text.contains("## Task a (1.5s, 10 tokens)\ndone\n\n"));
    assert!(text.contains("## Task b — FAILED\nError: boom\n\n"));
    assert!(text.ends_with("Summary: 1/2 tasks succeeded, 2.0s total, 10 tokens used"));
    let all_ok = structured_notes(&vec![], 3, 0, "0.0", 0);
    assert!(all_ok.contains("3/3 tasks succeeded"));
}

#[test]
fn test_denied_tools_filter() {
    let tools: Vec<String> = vec!["read".into(), "dangerous_tool".into(), "write".into()];
    let denied: Vec<String> = vec!["dangerous_tool".into()];
    assert_eq!(allowed_tools(&tools, &denied), vec!["read", "write"]);
    assert_eq!(allowed_tools(&tools, &vec![]), tools);
}

#[test]
fn test_parallel_spawn_max_concurrent() {
    let (mut s, first) = ParallelScheduler::start(6, 2);
    assert_eq!(first, 2);
    let mut started = first;
    while let Some(_) = s.on_task_finished(false) {
        started += 1;
    }
    assert_eq!(started, 6);
}

#[test]
fn test_subagent_manager_get_status_nonexistent() {
    let t = TaskTracker::new();
    assert!(t.get_status("nope").is_none());
    assert!(t.list_tasks().is_empty());
}

#[test]
fn per_task_settings() {
    let base = Config::default().agent;
    let mut t = task("x", "p");
    let s = task_agent_settings(&base, &t);
    assert_eq!(s.model, "gpt-4o");
    assert_eq!(s.max_tokens, 4096);
    t.model_override = Some("m2".into());
    t.max_tokens = Some(10);
    let s = task_agent_settings(&base, &t);
    assert_eq!(s.model, "m2");
    assert_eq!(s.max_tokens, 10);
}

#[test]
fn test_parallel_spawn_error_isolation() {
    let ids: Vec<String> = vec!["task-1".into(), "task-2".into(), "task-3".into()];
    // finished out of order; task 2 failed, the others succeeded
    let finished = vec![
        (2usize, true, 7u64, "c".to_string()),
        (1usize, false, 0u64, "Agent error: boom".to_string()),
        (0usize, true, 5u64, "a".to_string()),
    ];
    let (results, ok, bad, tokens) = batch_summary(&ids, &finished);
    let order: Vec<&str> = results.iter().map(|r| r.0.as_str()).collect();
    assert_eq!(order, vec!["task-1", "task-2", "task-3"]);
    assert_eq!((ok, bad, tokens), (2, 1, 12));
    assert_eq!(results[1].3, "Agent error: boom");
}

#[test]
fn test_parallel_spawn_total_timeout() {
    let ids: Vec<String> = vec!["a".into(), "b".into(), "c".into()];
    let finished = vec![(0usize, true, 1u64, "x".to_string())];
    let (results, ok, bad, tokens) = batch_summary(&ids, &finished);
    assert_eq!(results.len(), 1);
    assert_eq!((ok, bad, tokens), (1, 0, 1));
}
