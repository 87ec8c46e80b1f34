//! Sub-agent tasks: the tracking of background tasks, the scheduling of a
//! parallel batch under a concurrency limit, and the messages and results
//! of each task.
//!
//! Running the agents (and their timeouts) is done by the caller, which
//! reports each finished task back to the scheduler.

use vstd::prelude::*;
use crate::config::AgentSettings;
use crate::session::Message;
use crate::session::MessageRole;
use crate::text::chars_to_string;
use crate::text::decimal;
use crate::text::push_decimal;
use crate::text::push_str;
use crate::text::push_string;
use crate::text::str_chars;
use crate::text::str_eq;
use crate::text::views;

verus! {

/// A task to be executed by a sub-agent.
#[derive(Debug, Clone)]
pub struct SubAgentTask {
    /// Unique task identifier (assigned when empty).
    pub id: String,
    /// What the sub-agent is asked to do.
    pub prompt: String,
    /// Background sent ahead of the request, when given.
    pub context: Option<String>,
    pub model_override: Option<String>,
    /// Maximum tokens in the sub-agent's reply.
    pub max_tokens: Option<u32>,
}

/// Default limit of concurrently running tasks.
pub fn default_max_concurrent() -> (n: usize)
    ensures
        n == 3,
{
    3
}

/// Default timeout of one task, in seconds.
pub fn default_per_task_timeout() -> (n: u64)
    ensures
        n == 60,
{
    60
}

/// Configuration of a parallel batch.
#[derive(Debug, Clone)]
pub struct ParallelSpawnConfig {
    /// Maximum number of tasks running at once.
    pub max_concurrent: usize,
    /// Timeout of one task, in seconds.
    pub per_task_timeout_secs: u64,
    /// Timeout of the whole batch, in seconds (`None`: no deadline).
    pub total_timeout_secs: Option<u64>,
    /// Tools the sub-agents may not use.
    pub denied_tools: Vec<String>,
    /// System prompt prefix for sub-agents.
    pub system_prompt_prefix: Option<String>,
}

impl Default for ParallelSpawnConfig {
    fn default() -> (c: Self)
        ensures
            c.max_concurrent == 3,
            c.per_task_timeout_secs == 60,
            c.total_timeout_secs is None,
            c.denied_tools@.len() == 0,
            c.system_prompt_prefix is None,
    {
        ParallelSpawnConfig {
            max_concurrent: default_max_concurrent(),
            per_task_timeout_secs: default_per_task_timeout(),
            total_timeout_secs: None,
            denied_tools: Vec::new(),
            system_prompt_prefix: None,
        }
    }
}

/// Status of a tracked task.
#[derive(Debug, Clone, PartialEq, Eq)]
pub enum TaskStatus {
    Running,
    Completed(String),
    Failed(String),
}

/// A status as plain values.
pub enum StatusView {
    Running,
    Completed(Seq<char>),
    Failed(Seq<char>),
}

impl View for TaskStatus {
    type V = StatusView;

    open spec fn view(&self) -> StatusView {
        match self {
            TaskStatus::Running => StatusView::Running,
            TaskStatus::Completed(r) => StatusView::Completed(r@),
            TaskStatus::Failed(e) => StatusView::Failed(e@),
        }
    }
}

impl TaskStatus {
    /// A copy of this status.
    pub fn duplicate(&self) -> (r: Self)
        ensures
            r@ == self@,
    {
        match self {
            TaskStatus::Running => TaskStatus::Running,
            TaskStatus::Completed(r) => TaskStatus::Completed(r.clone()),
            TaskStatus::Failed(e) => TaskStatus::Failed(e.clone()),
        }
    }
}

/// A tracked task as plain values: id, name, description, status.
pub type TrackedView = (Seq<char>, Seq<char>, Seq<char>, StatusView);

#[derive(Debug)]
struct TrackedTask {
    id: String,
    name: String,
    description: String,
    status: TaskStatus,
}

/// Background tasks, in the order they were registered.
#[derive(Debug)]
pub struct TaskTracker {
    tasks: Vec<TrackedTask>,
}

/// First index of a task with id `id`.
pub open spec fn task_index(t: Seq<TrackedView>, id: Seq<char>, i: int) -> Option<int>
    decreases t.len() - i,
{
    if i < 0 || i >= t.len() {
        None
    } else if t[i].0 == id {
        Some(i)
    } else {
        task_index(t, id, i + 1)
    }
}

/// `t` with the status of the first task with id `id` replaced (unchanged
/// when there is none).
pub open spec fn with_status(t: Seq<TrackedView>, id: Seq<char>, s: StatusView) -> Seq<TrackedView> {
    match task_index(t, id, 0) {
        Some(i) => t.update(i, (t[i].0, t[i].1, t[i].2, s)),
        None => t,
    }
}

pub proof fn lemma_task_index(t: Seq<TrackedView>, id: Seq<char>, i: int)
    requires
        0 <= i <= t.len(),
    ensures
        task_index(t, id, i) matches Some(j) ==> i <= j < t.len() && t[j].0 == id,
    decreases t.len() - i,
{
    if i < t.len() && t[i].0 != id {
        lemma_task_index(t, id, i + 1);
    }
}

impl TaskTracker {
    /// The tracked tasks.
    pub closed spec fn tasks(&self) -> Seq<TrackedView> {
        Seq::new(self.tasks@.len(), |i: int| (self.tasks@[i].id@, self.tasks@[i].name@, self.tasks@[i].description@, self.tasks@[i].status@))
    }

    /// No task tracked.
    pub fn new() -> (t: Self)
        ensures
            t.tasks().len() == 0,
    {
        TaskTracker { tasks: Vec::new() }
    }

    /// Register a running task under `id`.
    pub fn register(&mut self, id: &str, name: &str, description: &str)
        ensures
            final(self).tasks() == old(self).tasks().push((id@, name@, description@, StatusView::Running)),
    {
        let ghost before = self.tasks();
        self.tasks.push(
            TrackedTask {
                id: String::from_str(id),
                name: String::from_str(name),
                description: String::from_str(description),
                status: TaskStatus::Running,
            },
        );
        assert(self.tasks() =~= before.push((id@, name@, description@, StatusView::Running)));
    }

    fn position(&self, id: &str) -> (r: Option<usize>)
        ensures
            match r {
                Some(j) => task_index(self.tasks(), id@, 0) == Some(j as int) && j < self.tasks@.len(),
                None => task_index(self.tasks(), id@, 0) is None,
            },
    {
        let mut i: usize = 0;
        while i < self.tasks.len()
            invariant
                i <= self.tasks.len(),
                task_index(self.tasks(), id@, 0) == task_index(self.tasks(), id@, i as int),
            decreases self.tasks.len() - i,
        {
            if str_eq(self.tasks[i].id.as_str(), id) {
                return Some(i);
            }
            i = i + 1;
        }
        None
    }

    fn set_status(&mut self, id: &str, status: TaskStatus)
        ensures
            final(self).tasks() == with_status(old(self).tasks(), id@, status@),
    {
        match self.position(id) {
            Some(j) => {
                let ghost before = self.tasks();
                let old_task = &self.tasks[j];
                let t = TrackedTask {
                    id: old_task.id.clone(),
                    name: old_task.name.clone(),
                    description: old_task.description.clone(),
                    status,
                };
                self.tasks.set(j, t);
                assert(self.tasks() =~= with_status(before, id@, status@));
            },
            None => {},
        }
    }

    /// Mark the task `id` completed with `result` (no effect for an unknown id).
    pub fn complete(&mut self, id: &str, result: String)
        ensures
            final(self).tasks() == with_status(old(self).tasks(), id@, StatusView::Completed(result@)),
    {
        self.set_status(id, TaskStatus::Completed(result));
    }

    /// Mark the task `id` failed with `error` (no effect for an unknown id).
    pub fn fail(&mut self, id: &str, error: String)
        ensures
            final(self).tasks() == with_status(old(self).tasks(), id@, StatusView::Failed(error@)),
    {
        self.set_status(id, TaskStatus::Failed(error));
    }

    /// The status of the task `id`.
    pub fn get_status(&self, id: &str) -> (r: Option<TaskStatus>)
        ensures
            match task_index(self.tasks(), id@, 0) {
                Some(j) => r is Some && r.unwrap()@ == self.tasks()[j].3,
                None => r is None,
            },
    {
        match self.position(id) {
            Some(j) => Some(self.tasks[j].status.duplicate()),
            None => None,
        }
    }

    /// Every tracked task: id, name, status.
    pub fn list_tasks(&self) -> (v: Vec<(String, String, TaskStatus)>)
        ensures
            v@.len() == self.tasks().len(),
            forall|i: int| 0 <= i < v@.len() ==> (#[trigger] v@[i]).0@ == self.tasks()[i].0 && v@[i].1@ == self.tasks()[i].1
                && v@[i].2@ == self.tasks()[i].3,
    {
        let mut v: Vec<(String, String, TaskStatus)> = Vec::new();
        let mut i: usize = 0;
        while i < self.tasks.len()
            invariant
                i <= self.tasks.len(),
                v@.len() == i,
                forall|k: int| 0 <= k < i ==> (#[trigger] v@[k]).0@ == self.tasks()[k].0 && v@[k].1@ == self.tasks()[k].1
                    && v@[k].2@ == self.tasks()[k].3,
            decreases self.tasks.len() - i,
        {
            let t = &self.tasks[i];
            v.push((t.id.clone(), t.name.clone(), t.status.duplicate()));
            i = i + 1;
        }
        v
    }

    /// Cancel the task `id`: a running task becomes failed with `Cancelled`
    /// and `true` is returned; otherwise nothing changes and `false` is
    /// returned. (Stopping the running work is the caller's part.)
    pub fn cancel(&mut self, id: &str) -> (r: bool)
        ensures
            r == (task_index(old(self).tasks(), id@, 0) matches Some(j) && old(self).tasks()[j].3 is Running),
            r ==> final(self).tasks() == with_status(old(self).tasks(), id@, StatusView::Failed("Cancelled"@)),
            !r ==> final(self).tasks() == old(self).tasks(),
    {
        match self.position(id) {
            Some(j) => {
                let running = match self.tasks[j].status {
                    TaskStatus::Running => true,
                    _ => false,
                };
                if running {
                    self.set_status(id, TaskStatus::Failed(String::from_str("Cancelled")));
                    true
                } else {
                    false
                }
            },
            None => false,
        }
    }
}

// ---------------------------------------------------------------------------
// Task preparation and messages
// ---------------------------------------------------------------------------

/// The id of the `i`-th task (0-indexed) of a batch: its own, or `task-<i+1>`.
pub open spec fn batch_id(given: Seq<char>, i: nat) -> Seq<char> {
    if given.len() == 0 {
        "task-"@ + decimal(i + 1)
    } else {
        given
    }
}

/// Give each task without an id the id `task-<position>` (counting from 1).
pub fn assign_task_ids(tasks: Vec<SubAgentTask>) -> (r: Vec<SubAgentTask>)
    ensures
        r@.len() == tasks@.len(),
        forall|i: int| 0 <= i < r@.len() ==> {
            let a = #[trigger] r@[i];
            let b = tasks@[i];
            &&& a.id@ == batch_id(b.id@, i as nat)
            &&& a.prompt == b.prompt
            &&& a.context == b.context
            &&& a.model_override == b.model_override
            &&& a.max_tokens == b.max_tokens
        },
{
    let mut out: Vec<SubAgentTask> = Vec::new();
    let mut i: usize = 0;
    let n: usize = tasks.len();
    let ghost input = tasks@;
    let mut rest = tasks;
    let mut queue: Vec<SubAgentTask> = Vec::new();
    assert(input.len() == n);
    while rest.len() > 0
        invariant
            input.len() <= usize::MAX,
            queue@.len() + rest@.len() == input.len(),
            forall|k: int| 0 <= k < rest@.len() ==> rest@[k] == input[k],
            forall|k: int| 0 <= k < queue@.len() ==> queue@[k] == input[input.len() - 1 - k],
        decreases rest.len(),
    {
        let t = rest.pop().unwrap();
        queue.push(t);
    }
    while queue.len() > 0
        invariant
            input.len() <= usize::MAX,
            out@.len() + queue@.len() == input.len(),
            i == out@.len(),
            forall|k: int| 0 <= k < queue@.len() ==> queue@[k] == input[input.len() - 1 - k],
            forall|k: int| 0 <= k < out@.len() ==> {
                let a = #[trigger] out@[k];
                let b = input[k];
                &&& a.id@ == batch_id(b.id@, k as nat)
                &&& a.prompt == b.prompt
                &&& a.context == b.context
                &&& a.model_override == b.model_override
                &&& a.max_tokens == b.max_tokens
            },
        decreases queue.len(),
    {
        let mut t = queue.pop().unwrap();
        assert(t == input[i as int]);
        if t.id.as_str().is_empty() {
            let mut s = str_chars("task-");
            push_decimal(&mut s, (i as u64) + 1);
            t.id = chars_to_string(&s);
        }
        out.push(t);
        i = i + 1;
    }
    out
}

/// The system prompt of a sub-agent.
pub fn sub_agent_system_prompt() -> (s: String)
    ensures
        s@ == "You are a focused sub-agent executing a specific task. Be concise and direct in your response."@,
{
    String::from_str("You are a focused sub-agent executing a specific task. Be concise and direct in your response.")
}

/// The messages sent to a sub-agent: the context (as `Context:` and the
/// text) when given, then the prompt, both as user messages.
pub fn task_messages(context: &Option<String>, prompt: &str) -> (v: Vec<Message>)
    ensures
        v@.len() == (if context is Some {
            2int
        } else {
            1int
        }),
        forall|i: int| 0 <= i < v@.len() ==> (#[trigger] v@[i]).role == MessageRole::User && v@[i].name is None
            && v@[i].tool_call_id is None && v@[i].tool_calls is None,
        context matches Some(c) ==> v@[0].content@ == "Context:\n"@ + c@,
        v@.last().content@ == prompt@,
{
    let mut v: Vec<Message> = Vec::new();
    if let Some(c) = context {
        let mut t = str_chars("Context:\n");
        push_string(&mut t, c);
        v.push(Message { role: MessageRole::User, content: chars_to_string(&t), name: None, tool_call_id: None, tool_calls: None });
    }
    v.push(Message { role: MessageRole::User, content: String::from_str(prompt), name: None, tool_call_id: None, tool_calls: None });
    v
}

/// The output of a task whose agent failed: `Agent error: <error>`.
pub fn agent_error_output(error: &str) -> (s: String)
    ensures
        s@ == "Agent error: "@ + error@,
{
    let mut t = str_chars("Agent error: ");
    push_str(&mut t, error);
    chars_to_string(&t)
}

/// The output of a task that ran out of time: `Timeout after <secs>s`.
pub fn timeout_output(secs: u64) -> (s: String)
    ensures
        s@ == "Timeout after "@ + decimal(secs as nat) + "s"@,
{
    let mut t = str_chars("Timeout after ");
    push_decimal(&mut t, secs);
    push_str(&mut t, "s");
    chars_to_string(&t)
}

/// The output of a task that could not run: `Task error: <error>`.
pub fn task_error_output(error: &str) -> (s: String)
    ensures
        s@ == "Task error: "@ + error@,
{
    let mut t = str_chars("Task error: ");
    push_str(&mut t, error);
    chars_to_string(&t)
}

// ---------------------------------------------------------------------------
// Parallel scheduling
// ---------------------------------------------------------------------------

/// Which tasks of a batch to start, and when to stop.
///
/// Tasks are started in order: first as many as the concurrency limit
/// allows, then one more each time a task finishes, until all are started
/// or the batch deadline has passed.
#[derive(Debug, Clone, Copy, PartialEq, Eq, Structural)]
pub struct ParallelScheduler {
    /// Number of tasks in the batch.
    pub total: usize,
    /// Index of the next task to start (= tasks started so far).
    pub next: usize,
    /// The batch was stopped by its deadline.
    pub stopped: bool,
}

impl ParallelScheduler {
    /// The scheduler for `total` tasks with at most `max_concurrent` running:
    /// returns it and the number of tasks to start at once (tasks
    /// `0..count`).
    pub fn start(total: usize, max_concurrent: usize) -> (r: (Self, usize))
        ensures
            r.1 == (if max_concurrent < total {
                max_concurrent
            } else {
                total
            }),
            r.0 == (ParallelScheduler { total, next: r.1, stopped: false }),
    {
        let n = if max_concurrent < total {
            max_concurrent
        } else {
            total
        };
        (ParallelScheduler { total, next: n, stopped: false }, n)
    }

    /// A task finished; `deadline_passed` tells whether the batch's time is
    /// up. Returns the index of the task to start next, if any; once the
    /// deadline has passed, the batch stops and no task is started.
    pub fn on_task_finished(&mut self, deadline_passed: bool) -> (r: Option<usize>)
        requires
            old(self).next <= old(self).total,
        ensures
            final(self).total == old(self).total,
            final(self).next <= final(self).total,
            old(self).stopped || deadline_passed ==> r is None && final(self).stopped && final(self).next == old(self).next,
            !old(self).stopped && !deadline_passed ==> {
                &&& !final(self).stopped
                &&& old(self).next < old(self).total ==> r == Some(old(self).next) && final(self).next == old(self).next + 1
                &&& old(self).next >= old(self).total ==> r is None && final(self).next == old(self).next
            },
    {
        if self.stopped || deadline_passed {
            self.stopped = true;
            return None;
        }
        if self.next < self.total {
            let i = self.next;
            self.next = self.next + 1;
            Some(i)
        } else {
            None
        }
    }
}

/// Number of successful results.
pub open spec fn success_count(s: Seq<bool>) -> nat
    decreases s.len(),
{
    if s.len() == 0 {
        0
    } else {
        success_count(s.drop_last()) + (if s.last() {
            1nat
        } else {
            0nat
        })
    }
}

/// Sum of the tokens used.
pub open spec fn token_total(s: Seq<u64>) -> nat
    decreases s.len(),
{
    if s.len() == 0 {
        0
    } else {
        token_total(s.drop_last()) + (s.last() as nat)
    }
}

proof fn lemma_success_le(s: Seq<bool>)
    ensures
        success_count(s) <= s.len(),
    decreases s.len(),
{
    if s.len() > 0 {
        lemma_success_le(s.drop_last());
    }
}

proof fn lemma_tokens_prefix(s: Seq<u64>, k: int)
    requires
        0 <= k <= s.len(),
    ensures
        token_total(s.take(k)) <= token_total(s),
    decreases s.len(),
{
    if k < s.len() {
        lemma_tokens_prefix(s.drop_last(), k);
        assert(s.drop_last().take(k) =~= s.take(k));
    } else {
        assert(s.take(k) =~= s);
    }
}

/// The batch statistics from the results' success flags and token counts:
/// succeeded, failed, total tokens.
pub fn batch_totals(success: &Vec<bool>, tokens: &Vec<u64>) -> (r: (usize, usize, u64))
    requires
        token_total(tokens@) <= u64::MAX,
    ensures
        r.0 as nat == success_count(success@),
        r.1 as nat == success@.len() - success_count(success@),
        r.2 as nat == token_total(tokens@),
{
    let mut ok: usize = 0;
    let mut i: usize = 0;
    while i < success.len()
        invariant
            i <= success.len(),
            ok as nat == success_count(success@.take(i as int)),
            ok <= i,
        decreases success.len() - i,
    {
        assert(success@.take(i + 1).drop_last() =~= success@.take(i as int));
        if success[i] {
            ok = ok + 1;
        }
        i = i + 1;
    }
    assert(success@.take(i as int) =~= success@);
    let mut sum: u64 = 0;
    let mut k: usize = 0;
    while k < tokens.len()
        invariant
            k <= tokens.len(),
            sum as nat == token_total(tokens@.take(k as int)),
            token_total(tokens@) <= u64::MAX,
        decreases tokens.len() - k,
    {
        proof {
            assert(tokens@.take(k + 1).drop_last() =~= tokens@.take(k as int));
            lemma_tokens_prefix(tokens@, k + 1);
        }
        sum = sum + tokens[k];
        k = k + 1;
    }
    assert(tokens@.take(k as int) =~= tokens@);
    (ok, success.len() - ok, sum)
}

// ---------------------------------------------------------------------------
// Per-task settings, tool filtering and the batch notes
// ---------------------------------------------------------------------------

/// The agent settings a task runs with: the base settings, with the task's
/// own model and token limit when it gives them.
pub fn task_agent_settings(base: &AgentSettings, task: &SubAgentTask) -> (r: AgentSettings)
    ensures
        r.model@ == match task.model_override {
            Some(m) => m@,
            None => base.model@,
        },
        r.max_tokens == match task.max_tokens {
            Some(n) => n,
            None => base.max_tokens,
        },
        r.provider == base.provider,
        r.streaming == base.streaming,
        r.temperature == base.temperature,
{
    let model = match &task.model_override {
        Some(m) => m.clone(),
        None => base.model.clone(),
    };
    let max_tokens = match task.max_tokens {
        Some(n) => n,
        None => base.max_tokens,
    };
    AgentSettings {
        model,
        provider: base.provider.clone(),
        streaming: base.streaming,
        max_tokens,
        temperature: base.temperature.clone(),
    }
}

/// The tool names left for sub-agents: every tool not denied, in order.
pub open spec fn allowed(tools: Seq<Seq<char>>, denied: Seq<Seq<char>>) -> Seq<Seq<char>>
    decreases tools.len(),
{
    if tools.len() == 0 {
        Seq::empty()
    } else if denied.contains(tools.last()) {
        allowed(tools.drop_last(), denied)
    } else {
        allowed(tools.drop_last(), denied).push(tools.last())
    }
}

fn is_denied(name: &String, denied: &Vec<String>) -> (r: bool)
    ensures
        r == views(denied@).contains(name@),
{
    let mut i: usize = 0;
    while i < denied.len()
        invariant
            i <= denied@.len(),
            forall|k: int| 0 <= k < i ==> denied@[k]@ != name@,
        decreases denied.len() - i,
    {
        if str_eq(denied[i].as_str(), name.as_str()) {
            assert(views(denied@)[i as int] == name@);
            return true;
        }
        i = i + 1;
    }
    assert forall|k: int| 0 <= k < views(denied@).len() implies #[trigger] views(denied@)[k] != name@ by {
        assert(views(denied@)[k] == denied@[k]@);
    }
    false
}

/// Filter the denied tools out of the tool list.
pub fn allowed_tools(tools: &Vec<String>, denied: &Vec<String>) -> (r: Vec<String>)
    ensures
        views(r@) == allowed(views(tools@), views(denied@)),
{
    let mut r: Vec<String> = Vec::new();
    let mut i: usize = 0;
    while i < tools.len()
        invariant
            i <= tools@.len(),
            views(r@) == allowed(views(tools@).take(i as int), views(denied@)),
        decreases tools.len() - i,
    {
        assert(views(tools@).take(i + 1).drop_last() =~= views(tools@).take(i as int));
        assert(views(tools@).take(i + 1).last() == tools@[i as int]@);
        if !is_denied(&tools[i], denied) {
            let ghost before = views(r@);
            r.push(tools[i].clone());
            assert(views(r@) =~= before.push(tools@[i as int]@));
        }
        i = i + 1;
    }
    assert(views(tools@).take(i as int) =~= views(tools@));
    r
}

/// One task's line of the batch notes, its duration already formatted
/// (seconds, one decimal).
#[derive(Debug)]
pub struct TaskNote {
    pub id: String,
    pub success: bool,
    pub output: String,
    pub duration_text: String,
    pub tokens_used: u64,
}

/// The notes section of one task.
pub open spec fn task_note_text(t: TaskNote) -> Seq<char> {
    if t.success {
        "## Task "@ + t.id@ + " ("@ + t.duration_text@ + "s, "@ + decimal(t.tokens_used as nat) + " tokens)\n"@
            + t.output@ + "\n\n"@
    } else {
        "## Task "@ + t.id@ + " — FAILED\nError: "@ + t.output@ + "\n\n"@
    }
}

/// The notes of all tasks, in order.
pub open spec fn task_notes_text(ts: Seq<TaskNote>) -> Seq<char>
    decreases ts.len(),
{
    if ts.len() == 0 {
        Seq::empty()
    } else {
        task_notes_text(ts.drop_last()) + task_note_text(ts.last())
    }
}

/// The structured notes of a batch: a section per task, then the summary
/// line (`Summary: <ok>/<ok+failed> tasks succeeded, <duration>s total,
/// <tokens> tokens used`).
pub fn structured_notes(
    results: &Vec<TaskNote>,
    succeeded: usize,
    failed: usize,
    total_duration_text: &str,
    total_tokens: u64,
) -> (s: String)
    requires
        succeeded + failed <= u64::MAX,
    ensures
        s@ == task_notes_text(results@) + "Summary: "@ + decimal(succeeded as nat) + "/"@ + decimal(
            (succeeded + failed) as nat,
        ) + " tasks succeeded, "@ + total_duration_text@ + "s total, "@ + decimal(total_tokens as nat)
            + " tokens used"@,
{
    let mut out: Vec<char> = Vec::new();
    let mut i: usize = 0;
    while i < results.len()
        invariant
            i <= results@.len(),
            out@ == task_notes_text(results@.take(i as int)),
        decreases results.len() - i,
    {
        let t = &results[i];
        assert(results@.take(i + 1).drop_last() =~= results@.take(i as int));
        push_str(&mut out, "## Task ");
        push_string(&mut out, &t.id);
        if t.success {
            push_str(&mut out, " (");
            push_string(&mut out, &t.duration_text);
            push_str(&mut out, "s, ");
            push_decimal(&mut out, t.tokens_used);
            push_str(&mut out, " tokens)\n");
            push_string(&mut out, &t.output);
            push_str(&mut out, "\n\n");
        } else {
            push_str(&mut out, " — FAILED\nError: ");
            push_string(&mut out, &t.output);
            push_str(&mut out, "\n\n");
        }
        assert(out@ =~= task_notes_text(results@.take(i + 1)));
        i = i + 1;
    }
    assert(results@.take(i as int) =~= results@);
    push_str(&mut out, "Summary: ");
    push_decimal(&mut out, succeeded as u64);
    push_str(&mut out, "/");
    push_decimal(&mut out, (succeeded as u64) + (failed as u64));
    push_str(&mut out, " tasks succeeded, ");
    push_str(&mut out, total_duration_text);
    push_str(&mut out, "s total, ");
    push_decimal(&mut out, total_tokens);
    push_str(&mut out, " tokens used");
    chars_to_string(&out)
}

// ---------------------------------------------------------------------------
// Batch summary
// ---------------------------------------------------------------------------

/// A task result as plain values: id, success, tokens used, output.
pub type ResultView = (Seq<char>, bool, u64, Seq<char>);

/// A finished task as plain values: its position in the batch, success,
/// tokens used, output.
pub type FinishedView = (usize, bool, u64, Seq<char>);

pub open spec fn finished_views(f: Seq<(usize, bool, u64, String)>) -> Seq<FinishedView> {
    f.map_values(|x: (usize, bool, u64, String)| (x.0, x.1, x.2, x.3@))
}

pub open spec fn result_views(r: Seq<(String, bool, u64, String)>) -> Seq<ResultView> {
    r.map_values(|x: (String, bool, u64, String)| (x.0@, x.1, x.2, x.3@))
}

/// The first finished entry reporting task `i`.
pub open spec fn first_report(f: Seq<FinishedView>, i: int, k: int) -> Option<int>
    decreases f.len() - k,
{
    if k < 0 || k >= f.len() {
        None
    } else if f[k].0 == i {
        Some(k)
    } else {
        first_report(f, i, k + 1)
    }
}

/// The results of the first `n` tasks, in the order they were submitted:
/// each finished task once (its first report), unfinished ones left out.
pub open spec fn placed_results(ids: Seq<Seq<char>>, f: Seq<FinishedView>, n: int) -> Seq<ResultView>
    decreases n,
{
    if n <= 0 {
        Seq::empty()
    } else {
        let prev = placed_results(ids, f, n - 1);
        match first_report(f, n - 1, 0) {
            Some(k) => prev.push((ids[n - 1], f[k].1, f[k].2, f[k].3)),
            None => prev,
        }
    }
}

pub open spec fn successes_of(r: Seq<ResultView>) -> Seq<bool> {
    r.map_values(|x: ResultView| x.1)
}

pub open spec fn tokens_of(r: Seq<ResultView>) -> Seq<u64> {
    r.map_values(|x: ResultView| x.2)
}

fn find_report(finished: &Vec<(usize, bool, u64, String)>, i: usize) -> (r: Option<usize>)
    ensures
        match r {
            Some(k) => first_report(finished_views(finished@), i as int, 0) == Some(k as int) && k < finished@.len(),
            None => first_report(finished_views(finished@), i as int, 0) is None,
        },
{
    let ghost f = finished_views(finished@);
    let mut k: usize = 0;
    while k < finished.len()
        invariant
            k <= finished@.len(),
            f == finished_views(finished@),
            first_report(f, i as int, 0) == first_report(f, i as int, k as int),
        decreases finished.len() - k,
    {
        assert(f[k as int].0 == finished@[k as int].0);
        if finished[k].0 == i {
            return Some(k);
        }
        k = k + 1;
    }
    None
}

/// The summary of a parallel batch: the results in the order the tasks were
/// submitted (`ids`, by position), from the reports of the tasks that
/// finished (`finished`, in the order they finished, each naming its task's
/// position); the numbers of successes and failures; and the tokens used.
/// A failed task counts as a failure without affecting the others.
pub fn batch_summary(ids: &Vec<String>, finished: &Vec<(usize, bool, u64, String)>) -> (s: (
    Vec<(String, bool, u64, String)>,
    usize,
    usize,
    u64,
))
    requires
        token_total(tokens_of(placed_results(views(ids@), finished_views(finished@), ids@.len() as int))) <= u64::MAX,
    ensures
        result_views(s.0@) == placed_results(views(ids@), finished_views(finished@), ids@.len() as int),
        s.1 as nat == success_count(successes_of(result_views(s.0@))),
        s.2 as nat == s.0@.len() - success_count(successes_of(result_views(s.0@))),
        s.3 as nat == token_total(tokens_of(result_views(s.0@))),
{
    let ghost iv = views(ids@);
    let ghost f = finished_views(finished@);
    let mut results: Vec<(String, bool, u64, String)> = Vec::new();
    let mut successes: Vec<bool> = Vec::new();
    let mut tokens: Vec<u64> = Vec::new();
    let mut i: usize = 0;
    while i < ids.len()
        invariant
            i <= ids@.len(),
            iv == views(ids@),
            f == finished_views(finished@),
            result_views(results@) == placed_results(iv, f, i as int),
            successes@ == successes_of(result_views(results@)),
            tokens@ == tokens_of(result_views(results@)),
        decreases ids.len() - i,
    {
        match find_report(finished, i) {
            Some(k) => {
                let r = &finished[k];
                let ghost before = result_views(results@);
                let entry = (ids[i].clone(), r.1, r.2, r.3.clone());
                results.push(entry);
                successes.push(r.1);
                tokens.push(r.2);
                proof {
                    assert(f[k as int] == (r.0, r.1, r.2, r.3@));
                    assert(iv[i as int] == ids@[i as int]@);
                    assert(result_views(results@) =~= before.push((iv[i as int], r.1, r.2, r.3@)));
                    assert(successes@ =~= successes_of(result_views(results@)));
                    assert(tokens@ =~= tokens_of(result_views(results@)));
                }
            },
            None => {},
        }
        i = i + 1;
    }
    let (ok, bad, total) = batch_totals(&successes, &tokens);
    (results, ok, bad, total)
}

} // verus!
