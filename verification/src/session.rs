//! Conversation sessions: message history with truncation, and structured
//! notes (create, update, delete, filter, compact, format).
//!
//! Timestamps are RFC 3339 strings. Each operation that stamps the current
//! time has a variant taking the time as an argument (`*_at`), whose
//! contract fixes the result completely.

use vstd::prelude::*;
use crate::clock::now_rfc3339;
use crate::keyed::KeyedMap;
use crate::lexical::lex_order;
use crate::lexical::sort_strings;
use crate::text::chars_to_string;
use crate::text::char_utf8_width;
use crate::text::decimal;
use crate::text::join;
use crate::text::push_decimal;
use crate::text::push_joined;
use crate::text::push_str;
use crate::text::push_string;
use crate::text::str_chars;
use crate::text::str_eq;
use crate::text::utf8_len;
use crate::text::utf8_width;
use crate::text::lemma_utf8_prefix_le;
use crate::text::views;

verus! {

/// Maximum notes before compaction triggers.
pub const MAX_NOTES_BEFORE_COMPACTION: usize = 50;

/// Role of a message author.
#[derive(Debug, Clone, Copy, PartialEq, Eq, Structural)]
pub enum MessageRole {
    System,
    User,
    Assistant,
    Tool,
}

/// A tool call requested by the assistant.
#[derive(Debug)]
pub struct ToolCall {
    pub id: String,
    pub name: String,
    /// Arguments as JSON text.
    pub arguments: String,
}

/// A message as sent to the LLM.
#[derive(Debug)]
pub struct Message {
    pub role: MessageRole,
    pub content: String,
    pub name: Option<String>,
    pub tool_call_id: Option<String>,
    pub tool_calls: Option<Vec<ToolCall>>,
}

/// A single entry in the session history.
#[derive(Debug)]
pub struct SessionEntry {
    pub role: MessageRole,
    pub content: String,
    /// Optional sender name for function/tool message routing.
    pub name: Option<String>,
    /// ID linking a tool result back to its originating tool call.
    pub tool_call_id: Option<String>,
    /// Tool calls requested by the assistant in this message.
    pub tool_calls: Option<Vec<ToolCall>>,
    /// When this entry was created (RFC 3339).
    pub timestamp: Option<String>,
}

/// A structured note attached to a session.
#[derive(Debug, PartialEq, Eq)]
pub struct SessionNote {
    /// Short key / title for the note.
    pub key: String,
    pub content: String,
    /// Category for grouping (e.g. "decision", "preference", "todo").
    pub category: Option<String>,
    /// When this note was created (RFC 3339).
    pub created_at: String,
    /// When this note was last updated (RFC 3339).
    pub updated_at: String,
}

/// Session metadata.
#[derive(Debug)]
pub struct SessionMetadata {
    /// Total number of conversation turns.
    pub turn_count: usize,
    /// Whether the history has been truncated.
    pub truncated: bool,
    pub created_at: Option<String>,
    pub last_active: Option<String>,
}

/// Where a session comes from.
#[derive(Debug)]
pub struct SessionSource {
    pub platform: String,
    pub chat_id: String,
    pub chat_name: Option<String>,
    pub chat_type: String,
    pub user_id: Option<String>,
    pub user_name: Option<String>,
    pub thread_id: Option<String>,
    pub chat_topic: Option<String>,
}

/// A conversation session.
#[derive(Debug)]
pub struct Session {
    /// Unique session key (`platform:chat_id[:thread_id]`).
    pub key: String,
    pub messages: Vec<SessionEntry>,
    pub notes: Vec<SessionNote>,
    pub metadata: SessionMetadata,
    pub source: Option<SessionSource>,
}

fn clone_opt(o: &Option<String>) -> (r: Option<String>)
    ensures
        r == *o,
{
    match o {
        Some(s) => Some(s.clone()),
        None => None,
    }
}

impl ToolCall {
    pub fn duplicate(&self) -> (r: Self)
        ensures
            r == *self,
    {
        ToolCall { id: self.id.clone(), name: self.name.clone(), arguments: self.arguments.clone() }
    }
}

fn clone_calls(o: &Option<Vec<ToolCall>>) -> (r: Option<Vec<ToolCall>>)
    ensures
        match *o {
            Some(v) => r is Some && r.unwrap()@ == v@,
            None => r is None,
        },
{
    match o {
        Some(v) => {
            let mut out: Vec<ToolCall> = Vec::new();
            let mut i: usize = 0;
            while i < v.len()
                invariant
                    i <= v.len(),
                    out@ == v@.take(i as int),
                decreases v.len() - i,
            {
                out.push(v[i].duplicate());
                assert(out@ =~= v@.take(i + 1));
                i = i + 1;
            }
            assert(v@.take(i as int) =~= v@);
            Some(out)
        },
        None => None,
    }
}

/// Entries equal up to the identity of their tool-call vectors.
pub open spec fn same_entry(a: SessionEntry, b: SessionEntry) -> bool {
    &&& a.role == b.role
    &&& a.content == b.content
    &&& a.name == b.name
    &&& a.tool_call_id == b.tool_call_id
    &&& a.timestamp == b.timestamp
    &&& match (a.tool_calls, b.tool_calls) {
        (Some(x), Some(y)) => x@ == y@,
        (None, None) => true,
        _ => false,
    }
}

impl SessionEntry {
    pub fn duplicate(&self) -> (r: Self)
        ensures
            same_entry(r, *self),
    {
        SessionEntry {
            role: self.role,
            content: self.content.clone(),
            name: clone_opt(&self.name),
            tool_call_id: clone_opt(&self.tool_call_id),
            tool_calls: clone_calls(&self.tool_calls),
            timestamp: clone_opt(&self.timestamp),
        }
    }

    /// An empty user entry stamped with the current time.
    pub fn new_default() -> (r: Self)
        ensures
            r.role == MessageRole::User,
            r.content@.len() == 0,
            r.name is None,
            r.tool_call_id is None,
            r.tool_calls is None,
            r.timestamp is Some,
    {
        SessionEntry {
            role: MessageRole::User,
            content: String::new(),
            name: None,
            tool_call_id: None,
            tool_calls: None,
            timestamp: Some(now_rfc3339()),
        }
    }
}

impl SessionNote {
    pub fn duplicate(&self) -> (r: Self)
        ensures
            r == *self,
    {
        SessionNote {
            key: self.key.clone(),
            content: self.content.clone(),
            category: clone_opt(&self.category),
            created_at: self.created_at.clone(),
            updated_at: self.updated_at.clone(),
        }
    }
}

impl SessionMetadata {
    /// Zero turns, not truncated, no timestamps.
    pub fn new() -> (m: Self)
        ensures
            m.turn_count == 0,
            !m.truncated,
            m.created_at is None,
            m.last_active is None,
    {
        SessionMetadata { turn_count: 0, truncated: false, created_at: None, last_active: None }
    }
}

/// The entry of a message appended with the given role, content and tool-call id.
pub open spec fn appended(e: SessionEntry, role: MessageRole, content: String, tool_call_id: Option<String>) -> bool {
    &&& e.role == role
    &&& e.content == content
    &&& e.name is None
    &&& e.tool_call_id == tool_call_id
    &&& e.tool_calls is None
    &&& e.timestamp is Some
}

/// The estimated token count of a history: a quarter of each content's UTF-8 length.
pub open spec fn token_estimate(m: Seq<SessionEntry>) -> nat
    decreases m.len(),
{
    if m.len() == 0 {
        0
    } else {
        token_estimate(m.drop_last()) + utf8_len(m.last().content@) / 4
    }
}

/// The history kept by truncation to `max` messages: the first message when
/// it is a system message, then the last `max` messages.
pub open spec fn truncated_history(m: Seq<SessionEntry>, max: nat) -> Seq<SessionEntry> {
    let tail = m.subrange(m.len() - max, m.len() as int);
    if m[0].role == MessageRole::System {
        seq![m[0]] + tail
    } else {
        tail
    }
}

fn utf8_byte_len(s: &String) -> (n: usize)
    requires
        utf8_len(s@) <= usize::MAX,
    ensures
        n as nat == utf8_len(s@),
{
    let c = str_chars(s.as_str());
    let mut n: usize = 0;
    let mut i: usize = 0;
    while i < c.len()
        invariant
            i <= c.len(),
            c@ == s@,
            utf8_len(s@) <= usize::MAX,
            n as nat == utf8_len(c@.take(i as int)),
        decreases c.len() - i,
    {
        proof {
            assert(c@.take(i + 1).drop_last() =~= c@.take(i as int));
            lemma_utf8_prefix_le(c@, i + 1);
        }
        n = n + char_utf8_width(c[i]);
        i = i + 1;
    }
    assert(c@.take(i as int) =~= c@);
    n
}

proof fn lemma_tokens_prefix_le(m: Seq<SessionEntry>, k: int)
    requires
        0 <= k <= m.len(),
    ensures
        token_estimate(m.take(k)) <= token_estimate(m),
    decreases m.len(),
{
    if k < m.len() {
        lemma_tokens_prefix_le(m.drop_last(), k);
        assert(m.drop_last().take(k) =~= m.take(k));
    } else {
        assert(m.take(k) =~= m);
    }
}

impl Session {
    /// A new empty session with the given key.
    pub fn new(key: String) -> (s: Self)
        ensures
            s.key == key,
            s.messages@.len() == 0,
            s.notes@.len() == 0,
            s.metadata.turn_count == 0,
            !s.metadata.truncated,
            s.source is None,
    {
        Session {
            key,
            messages: Vec::new(),
            notes: Vec::new(),
            metadata: SessionMetadata::new(),
            source: None,
        }
    }

    fn add_entry(&mut self, role: MessageRole, content: String, tool_call_id: Option<String>)
        ensures
            final(self).messages@.len() == old(self).messages@.len() + 1,
            final(self).messages@.drop_last() == old(self).messages@,
            appended(final(self).messages@.last(), role, content, tool_call_id),
            final(self).notes == old(self).notes,
            final(self).key == old(self).key,
            final(self).metadata == old(self).metadata,
    {
        self.messages.push(
            SessionEntry {
                role,
                content,
                name: None,
                tool_call_id,
                tool_calls: None,
                timestamp: Some(now_rfc3339()),
            },
        );
        assert(self.messages@.drop_last() =~= old(self).messages@);
    }

    /// Add a user message, stamped with the current time.
    pub fn add_user_message(&mut self, content: String)
        ensures
            final(self).messages@.len() == old(self).messages@.len() + 1,
            final(self).messages@.drop_last() == old(self).messages@,
            appended(final(self).messages@.last(), MessageRole::User, content, None),
            final(self).notes == old(self).notes,
    {
        self.add_entry(MessageRole::User, content, None);
    }

    /// Add an assistant message, stamped with the current time.
    pub fn add_assistant_message(&mut self, content: String)
        ensures
            final(self).messages@.len() == old(self).messages@.len() + 1,
            final(self).messages@.drop_last() == old(self).messages@,
            appended(final(self).messages@.last(), MessageRole::Assistant, content, None),
            final(self).notes == old(self).notes,
    {
        self.add_entry(MessageRole::Assistant, content, None);
    }

    /// Add a system message, stamped with the current time.
    pub fn add_system_message(&mut self, content: String)
        ensures
            final(self).messages@.len() == old(self).messages@.len() + 1,
            final(self).messages@.drop_last() == old(self).messages@,
            appended(final(self).messages@.last(), MessageRole::System, content, None),
            final(self).notes == old(self).notes,
    {
        self.add_entry(MessageRole::System, content, None);
    }

    /// Add a tool result message, stamped with the current time.
    pub fn add_tool_result(&mut self, tool_call_id: String, content: String)
        ensures
            final(self).messages@.len() == old(self).messages@.len() + 1,
            final(self).messages@.drop_last() == old(self).messages@,
            appended(final(self).messages@.last(), MessageRole::Tool, content, Some(tool_call_id)),
            final(self).notes == old(self).notes,
    {
        self.add_entry(MessageRole::Tool, content, Some(tool_call_id));
    }

    /// The history as LLM-ready messages, field for field.
    pub fn to_messages(&self) -> (v: Vec<Message>)
        ensures
            v@.len() == self.messages@.len(),
            forall|i: int| 0 <= i < v@.len() ==> {
                let m = #[trigger] v@[i];
                let e = self.messages@[i];
                &&& m.role == e.role
                &&& m.content == e.content
                &&& m.name == e.name
                &&& m.tool_call_id == e.tool_call_id
                &&& match (m.tool_calls, e.tool_calls) {
                    (Some(x), Some(y)) => x@ == y@,
                    (None, None) => true,
                    _ => false,
                }
            },
    {
        let mut v: Vec<Message> = Vec::new();
        let mut i: usize = 0;
        while i < self.messages.len()
            invariant
                i <= self.messages.len(),
                v@.len() == i,
                forall|j: int| 0 <= j < i ==> {
                    let m = #[trigger] v@[j];
                    let e = self.messages@[j];
                    &&& m.role == e.role
                    &&& m.content == e.content
                    &&& m.name == e.name
                    &&& m.tool_call_id == e.tool_call_id
                    &&& match (m.tool_calls, e.tool_calls) {
                        (Some(x), Some(y)) => x@ == y@,
                        (None, None) => true,
                        _ => false,
                    }
                },
            decreases self.messages.len() - i,
        {
            let e = &self.messages[i];
            v.push(
                Message {
                    role: e.role,
                    content: e.content.clone(),
                    name: clone_opt(&e.name),
                    tool_call_id: clone_opt(&e.tool_call_id),
                    tool_calls: clone_calls(&e.tool_calls),
                },
            );
            i = i + 1;
        }
        v
    }

    /// Truncate the history to the last `max_messages` entries, always
    /// keeping the first message when it is a system message.
    pub fn truncate(&mut self, max_messages: usize)
        ensures
            old(self).messages@.len() <= max_messages ==> *final(self) == *old(self),
            old(self).messages@.len() > max_messages ==> {
                &&& final(self).messages@.len() == truncated_history(old(self).messages@, max_messages as nat).len()
                &&& forall|i: int| 0 <= i < final(self).messages@.len() ==> same_entry(
                    #[trigger] final(self).messages@[i],
                    truncated_history(old(self).messages@, max_messages as nat)[i],
                )
                &&& final(self).metadata.truncated
                &&& final(self).metadata.turn_count == old(self).metadata.turn_count
                &&& final(self).notes == old(self).notes
                &&& final(self).key == old(self).key
            },
    {
        let n = self.messages.len();
        if n <= max_messages {
            return;
        }
        let ghost old_m = self.messages@;
        let ghost want = truncated_history(old_m, max_messages as nat);
        let mut kept: Vec<SessionEntry> = Vec::new();
        if self.messages[0].role == MessageRole::System {
            kept.push(self.messages[0].duplicate());
        }
        let ghost off: int = if old_m[0].role == MessageRole::System {
            1
        } else {
            0
        };
        let start = n - max_messages;
        let mut i = start;
        while i < n
            invariant
                start <= i <= n,
                n == self.messages@.len(),
                self.messages@ == old_m,
                start == n - max_messages,
                want == truncated_history(old_m, max_messages as nat),
                off == (if old_m[0].role == MessageRole::System {
                    1int
                } else {
                    0int
                }),
                kept@.len() == off + (i - start),
                forall|j: int| 0 <= j < kept@.len() ==> same_entry(#[trigger] kept@[j], want[j]),
            decreases n - i,
        {
            kept.push(self.messages[i].duplicate());
            i = i + 1;
        }
        self.messages = kept;
        self.metadata.truncated = true;
    }

    /// The estimated token count: a quarter of each message's UTF-8 length.
    pub fn estimated_tokens(&self) -> (n: usize)
        requires
            token_estimate(self.messages@) <= usize::MAX,
            forall|i: int| 0 <= i < self.messages@.len() ==> utf8_len(
                #[trigger] self.messages@[i].content@,
            ) <= usize::MAX,
        ensures
            n as nat == token_estimate(self.messages@),
    {
        let mut total: usize = 0;
        let mut i: usize = 0;
        while i < self.messages.len()
            invariant
                i <= self.messages.len(),
                token_estimate(self.messages@) <= usize::MAX,
                forall|j: int| 0 <= j < self.messages@.len() ==> utf8_len(
                    #[trigger] self.messages@[j].content@,
                ) <= usize::MAX,
                total as nat == token_estimate(self.messages@.take(i as int)),
            decreases self.messages.len() - i,
        {
            proof {
                assert(self.messages@.take(i + 1).drop_last() =~= self.messages@.take(i as int));
                lemma_tokens_prefix_le(self.messages@, i + 1);
            }
            let b = utf8_byte_len(&self.messages[i].content);
            total = total + b / 4;
            i = i + 1;
        }
        assert(self.messages@.take(i as int) =~= self.messages@);
        total
    }

    /// Reset the session: no messages, not truncated, zero turns.
    pub fn reset(&mut self)
        ensures
            final(self).messages@.len() == 0,
            !final(self).metadata.truncated,
            final(self).metadata.turn_count == 0,
            final(self).metadata.created_at == old(self).metadata.created_at,
            final(self).metadata.last_active == old(self).metadata.last_active,
            final(self).notes == old(self).notes,
            final(self).key == old(self).key,
    {
        self.messages.clear();
        self.metadata.truncated = false;
        self.metadata.turn_count = 0;
    }
}

// ---------------------------------------------------------------------------
// Structured notes
// ---------------------------------------------------------------------------

/// First index `j >= i` of a note with key `key`.
pub open spec fn note_index(notes: Seq<SessionNote>, key: Seq<char>, i: int) -> Option<int>
    decreases notes.len() - i,
{
    if i < 0 || i >= notes.len() {
        None
    } else if notes[i].key@ == key {
        Some(i)
    } else {
        note_index(notes, key, i + 1)
    }
}

pub proof fn lemma_note_index(notes: Seq<SessionNote>, key: Seq<char>, i: int)
    requires
        0 <= i <= notes.len(),
    ensures
        note_index(notes, key, i) matches Some(j) ==> i <= j < notes.len() && notes[j].key@ == key,
        note_index(notes, key, i) is None ==> forall|j: int| i <= j < notes.len() ==> notes[j].key@ != key,
    decreases notes.len() - i,
{
    if i < notes.len() && notes[i].key@ != key {
        lemma_note_index(notes, key, i + 1);
    }
}

/// The notes after saving `content` under `key` at time `now`: the first note
/// with that key is updated (its category only when one is given), or a new
/// note is appended.
pub open spec fn saved_notes(
    notes: Seq<SessionNote>,
    key: String,
    content: String,
    category: Option<String>,
    now: String,
) -> Seq<SessionNote> {
    match note_index(notes, key@, 0) {
        Some(i) => notes.update(
            i,
            SessionNote {
                content: content,
                category: if category is Some {
                    category
                } else {
                    notes[i].category
                },
                updated_at: now,
                ..notes[i]
            },
        ),
        None => notes.push(
            SessionNote { key: key, content: content, category: category, created_at: now, updated_at: now },
        ),
    }
}

/// `after` is `before` compacted: a `_compacted` summary note (category
/// `_system`, stamped with a non-empty time) of all but the newest half of
/// the limit, followed by those newest notes.
pub open spec fn compacted_notes(before: Seq<SessionNote>, after: Seq<SessionNote>) -> bool {
    let split = before.len() - MAX_NOTES_BEFORE_COMPACTION / 2;
    let older = before.subrange(0, split);
    let summary = after[0];
    &&& after.len() == 1 + MAX_NOTES_BEFORE_COMPACTION / 2
    &&& after.drop_first() == before.subrange(split, before.len() as int)
    &&& summary.key@ == "_compacted"@
    &&& summary.content@ == compacted_content(older)
    &&& (summary.category matches Some(c) && c@ == "_system"@)
    &&& summary.created_at@.len() > 0
    &&& summary.updated_at == summary.created_at
}

/// The notes whose key is not `key`, in order.
pub open spec fn notes_without(notes: Seq<SessionNote>, key: Seq<char>) -> Seq<SessionNote>
    decreases notes.len(),
{
    if notes.len() == 0 {
        Seq::empty()
    } else if notes.last().key@ == key {
        notes_without(notes.drop_last(), key)
    } else {
        notes_without(notes.drop_last(), key).push(notes.last())
    }
}

/// The notes of category `category`, in order.
pub open spec fn notes_in(notes: Seq<SessionNote>, category: Seq<char>) -> Seq<SessionNote>
    decreases notes.len(),
{
    if notes.len() == 0 {
        Seq::empty()
    } else if notes.last().category matches Some(c) && c@ == category {
        notes_in(notes.drop_last(), category).push(notes.last())
    } else {
        notes_in(notes.drop_last(), category)
    }
}

/// One line of the notes context: `- [category] key: content` or `- key: content`.
pub open spec fn note_line(n: SessionNote) -> Seq<char> {
    match n.category {
        Some(c) => "- ["@ + c@ + "] "@ + n.key@ + ": "@ + n.content@,
        None => "- "@ + n.key@ + ": "@ + n.content@,
    }
}

/// The notes context: a heading, then one line per note.
pub open spec fn notes_context(notes: Seq<SessionNote>) -> Option<Seq<char>> {
    if notes.len() == 0 {
        None
    } else {
        Some(join(seq!["## Session Notes"@] + Seq::new(notes.len(), |i: int| note_line(notes[i])), "\n"@))
    }
}

/// The category a note is counted under when compacting.
pub open spec fn label(n: SessionNote) -> Seq<char> {
    match n.category {
        Some(c) => c@,
        None => "general"@,
    }
}

/// The labels of the notes, each once, in order of first occurrence.
pub open spec fn distinct_labels(s: Seq<SessionNote>) -> Seq<Seq<char>>
    decreases s.len(),
{
    if s.len() == 0 {
        Seq::empty()
    } else {
        let d = distinct_labels(s.drop_last());
        if d.contains(label(s.last())) {
            d
        } else {
            d.push(label(s.last()))
        }
    }
}

/// Number of notes with label `l`.
pub open spec fn label_count(s: Seq<SessionNote>, l: Seq<char>) -> nat
    decreases s.len(),
{
    if s.len() == 0 {
        0
    } else {
        label_count(s.drop_last(), l) + (if label(s.last()) == l {
            1nat
        } else {
            0nat
        })
    }
}

/// `category (count)` for each label.
pub open spec fn category_items(s: Seq<SessionNote>) -> Seq<Seq<char>> {
    let d = distinct_labels(s);
    Seq::new(d.len(), |i: int| d[i] + " ("@ + decimal(label_count(s, d[i])) + ")"@)
}

/// The content of the summary note replacing the `older` notes.
pub open spec fn compacted_content(older: Seq<SessionNote>) -> Seq<char> {
    "Compacted "@ + decimal(older.len()) + " older notes ("@ + join(
        category_items(older).sort_by(lex_order()),
        ", "@,
    ) + "). Key points:\n"@ + join(
        Seq::new(older.len(), |i: int| "- "@ + older[i].key@ + ": "@ + older[i].content@),
        "\n"@,
    )
}

proof fn lemma_label_count_le(s: Seq<SessionNote>, l: Seq<char>)
    ensures
        label_count(s, l) <= s.len(),
    decreases s.len(),
{
    if s.len() > 0 {
        lemma_label_count_le(s.drop_last(), l);
    }
}

proof fn lemma_distinct_labels(s: Seq<SessionNote>, l: Seq<char>)
    ensures
        distinct_labels(s).contains(l) <==> label_count(s, l) > 0,
    decreases s.len(),
{
    if s.len() > 0 {
        lemma_distinct_labels(s.drop_last(), l);
        let d = distinct_labels(s.drop_last());
        let x = label(s.last());
        if !d.contains(x) {
            let e = d.push(x);
            assert(e[d.len() as int] == x);
            if e.contains(l) {
                let j = choose|j: int| 0 <= j < e.len() && e[j] == l;
                if j < d.len() {
                    assert(d[j] == l);
                }
            }
            if d.contains(l) {
                let j = choose|j: int| 0 <= j < d.len() && d[j] == l;
                assert(e[j] == l);
            }
        }
    }
}

fn note_label(n: &SessionNote) -> (s: String)
    ensures
        s@ == label(*n),
{
    match &n.category {
        Some(c) => c.clone(),
        None => String::from_str("general"),
    }
}

/// `category (count)` for each label of `older`, labels in first-occurrence order.
fn count_categories(older: &Vec<SessionNote>) -> (items: Vec<String>)
    ensures
        views(items@) == category_items(older@),
{
    let mut counts: KeyedMap<usize> = KeyedMap::new();
    let mut i: usize = 0;
    while i < older.len()
        invariant
            i <= older.len(),
            counts.wf(),
            counts.keys() == distinct_labels(older@.take(i as int)),
            forall|l: Seq<char>| #[trigger] counts.get_spec(l) == if label_count(older@.take(i as int), l) > 0 {
                Some(label_count(older@.take(i as int), l) as usize)
            } else {
                None::<usize>
            },
        decreases older.len() - i,
    {
        let ghost pre = older@.take(i as int);
        let ghost nxt = older@.take(i + 1);
        assert(nxt.drop_last() =~= pre);
        let l = note_label(&older[i]);
        proof {
            lemma_label_count_le(pre, l@);
            lemma_distinct_labels(pre, l@);
        }
        let c: usize = match counts.get(l.as_str()) {
            Some(c) => *c,
            None => 0,
        };
        counts.insert(l.as_str(), c + 1);
        proof {
            assert forall|q: Seq<char>| #[trigger] counts.get_spec(q) == if label_count(nxt, q) > 0 {
                Some(label_count(nxt, q) as usize)
            } else {
                None::<usize>
            } by {
                lemma_label_count_le(pre, q);
            }
        }
        i = i + 1;
    }
    assert(older@.take(i as int) =~= older@);
    let ghost d = distinct_labels(older@);
    let mut items: Vec<String> = Vec::new();
    let mut k: usize = 0;
    while k < counts.len()
        invariant
            k <= counts.keys().len(),
            counts.wf(),
            counts.keys() == d,
            d == distinct_labels(older@),
            forall|l: Seq<char>| #[trigger] counts.get_spec(l) == if label_count(older@, l) > 0 {
                Some(label_count(older@, l) as usize)
            } else {
                None::<usize>
            },
            views(items@) == category_items(older@).take(k as int),
        decreases counts.keys().len() - k,
    {
        let (name, n) = counts.entry(k);
        proof {
            counts.lemma_values(k as int);
            lemma_distinct_labels(older@, d[k as int]);
            lemma_label_count_le(older@, d[k as int]);
            assert(d.contains(d[k as int]));
        }
        assert(counts.get_spec(d[k as int]) == Some(*n));
        assert(label_count(older@, d[k as int]) > 0);
        assert(label_count(older@, d[k as int]) <= older.len());
        assert(counts.get_spec(d[k as int]) == Some(label_count(older@, d[k as int]) as usize));
        assert(*n as nat == label_count(older@, d[k as int]));
        let mut t = str_chars(name.as_str());
        push_str(&mut t, " (");
        push_decimal(&mut t, *n as u64);
        push_str(&mut t, ")");
        let item = chars_to_string(&t);
        assert(item@ =~= d[k as int] + " ("@ + decimal(label_count(older@, d[k as int])) + ")"@);
        assert(category_items(older@)[k as int] == item@);
        let ghost before = views(items@);
        items.push(item);
        assert(views(items@) =~= before.push(item@));
        assert(category_items(older@).take(k + 1) =~= category_items(older@).take(k as int).push(item@));
        k = k + 1;
    }
    assert(category_items(older@).take(k as int) =~= category_items(older@));
    items
}

impl Session {
    /// Save a note at time `now` (create or update by key).
    pub fn save_note_at(&mut self, key: String, content: String, category: Option<String>, now: String)
        ensures
            final(self).notes@ == saved_notes(old(self).notes@, key, content, category, now),
            final(self).messages == old(self).messages,
            final(self).key == old(self).key,
    {
        let ghost notes = self.notes@;
        let mut i: usize = 0;
        while i < self.notes.len()
            invariant
                i <= self.notes.len(),
                self.notes@ == notes,
                notes == old(self).notes@,
                self.messages == old(self).messages,
                self.key == old(self).key,
                note_index(notes, key@, 0) == note_index(notes, key@, i as int),
            decreases self.notes.len() - i,
        {
            if str_eq(self.notes[i].key.as_str(), key.as_str()) {
                proof {
                    lemma_note_index(notes, key@, 0);
                }
                let mut n = self.notes[i].duplicate();
                n.content = content;
                if category.is_some() {
                    n.category = category;
                }
                n.updated_at = now;
                self.notes.set(i, n);
                return;
            }
            i = i + 1;
        }
        let created = now.clone();
        self.notes.push(SessionNote { key, content, category, created_at: created, updated_at: now });
    }

    /// Save a note (create or update by key), stamped with the current time.
    pub fn save_note(&mut self, key: String, content: String, category: Option<String>)
        ensures
            exists|now: String| #![trigger now@] now@.len() > 0 && final(self).notes@ == saved_notes(old(self).notes@, key, content, category, now),
            final(self).messages == old(self).messages,
            final(self).key == old(self).key,
    {
        let now = now_rfc3339();
        let ghost t = now;
        self.save_note_at(key, content, category, now);
        assert(t@.len() > 0);
    }

    /// The first note with the given key.
    pub fn get_note(&self, key: &str) -> (r: Option<&SessionNote>)
        ensures
            match note_index(self.notes@, key@, 0) {
                Some(i) => r is Some && *r.unwrap() == self.notes@[i],
                None => r is None,
            },
    {
        let mut i: usize = 0;
        while i < self.notes.len()
            invariant
                i <= self.notes.len(),
                note_index(self.notes@, key@, 0) == note_index(self.notes@, key@, i as int),
            decreases self.notes.len() - i,
        {
            if str_eq(self.notes[i].key.as_str(), key) {
                return Some(&self.notes[i]);
            }
            i = i + 1;
        }
        None
    }

    /// Delete every note with the given key; `true` when a note was removed.
    pub fn delete_note(&mut self, key: &str) -> (r: bool)
        ensures
            final(self).notes@ == notes_without(old(self).notes@, key@),
            r == (note_index(old(self).notes@, key@, 0) is Some),
            final(self).messages == old(self).messages,
            final(self).key == old(self).key,
    {
        let ghost notes = self.notes@;
        let mut kept: Vec<SessionNote> = Vec::new();
        let mut removed = false;
        let mut i: usize = 0;
        assert(notes.take(0) =~= Seq::<SessionNote>::empty());
        while i < self.notes.len()
            invariant
                i <= self.notes.len(),
                self.notes@ == notes,
                kept@ == notes_without(notes.take(i as int), key@),
                removed == (note_index(notes.take(i as int), key@, 0) is Some),
            decreases self.notes.len() - i,
        {
            let ghost pre = notes.take(i as int);
            let ghost nxt = notes.take(i + 1);
            assert(nxt.drop_last() =~= pre);
            proof {
                lemma_note_index(pre, key@, 0);
                lemma_note_index(nxt, key@, 0);
                if let Some(j) = note_index(pre, key@, 0) {
                    assert(nxt[j] == pre[j]);
                }
                if let Some(j) = note_index(nxt, key@, 0) {
                    if j < i {
                        assert(nxt[j] == pre[j]);
                    }
                }
            }
            if str_eq(self.notes[i].key.as_str(), key) {
                removed = true;
            } else {
                kept.push(self.notes[i].duplicate());
            }
            i = i + 1;
        }
        assert(notes.take(i as int) =~= notes);
        self.notes = kept;
        removed
    }

    /// The notes of the given category, in order.
    pub fn notes_by_category(&self, category: &str) -> (r: Vec<&SessionNote>)
        ensures
            r@.len() == notes_in(self.notes@, category@).len(),
            forall|i: int| 0 <= i < r@.len() ==> *r@[i] == notes_in(self.notes@, category@)[i],
    {
        let mut r: Vec<&SessionNote> = Vec::new();
        let mut i: usize = 0;
        assert(self.notes@.take(0) =~= Seq::<SessionNote>::empty());
        while i < self.notes.len()
            invariant
                i <= self.notes.len(),
                r@.len() == notes_in(self.notes@.take(i as int), category@).len(),
                forall|j: int| 0 <= j < r@.len() ==> *r@[j] == notes_in(self.notes@.take(i as int), category@)[j],
            decreases self.notes.len() - i,
        {
            assert(self.notes@.take(i + 1).drop_last() =~= self.notes@.take(i as int));
            let n = &self.notes[i];
            let matches = match &n.category {
                Some(c) => str_eq(c.as_str(), category),
                None => false,
            };
            if matches {
                r.push(n);
            }
            i = i + 1;
        }
        assert(self.notes@.take(i as int) =~= self.notes@);
        r
    }

    /// The notes formatted as context for the system prompt (`None` without notes).
    pub fn format_notes_context(&self) -> (r: Option<String>)
        ensures
            match r {
                Some(s) => notes_context(self.notes@) == Some(s@),
                None => notes_context(self.notes@) is None,
            },
    {
        if self.notes.len() == 0 {
            return None;
        }
        let mut parts: Vec<String> = Vec::new();
        parts.push(String::from_str("## Session Notes"));
        let ghost lines = Seq::new(self.notes@.len(), |i: int| note_line(self.notes@[i]));
        let mut i: usize = 0;
        assert(views(parts@) =~= seq!["## Session Notes"@] + lines.take(0));
        while i < self.notes.len()
            invariant
                i <= self.notes.len(),
                lines == Seq::new(self.notes@.len(), |i: int| note_line(self.notes@[i])),
                views(parts@) == seq!["## Session Notes"@] + lines.take(i as int),
            decreases self.notes.len() - i,
        {
            let n = &self.notes[i];
            let mut t: Vec<char> = Vec::new();
            match &n.category {
                Some(c) => {
                    push_str(&mut t, "- [");
                    push_string(&mut t, c);
                    push_str(&mut t, "] ");
                },
                None => {
                    push_str(&mut t, "- ");
                },
            }
            push_string(&mut t, &n.key);
            push_str(&mut t, ": ");
            push_string(&mut t, &n.content);
            assert(t@ =~= note_line(*n));
            let line = chars_to_string(&t);
            let ghost before = views(parts@);
            parts.push(line);
            assert(views(parts@) =~= before.push(line@));
            assert(lines.take(i + 1) =~= lines.take(i as int).push(line@));
            i = i + 1;
        }
        assert(lines.take(i as int) =~= lines);
        let mut out: Vec<char> = Vec::new();
        push_joined(&mut out, &parts, "\n");
        assert(out@ =~= join(views(parts@), "\n"@));
        Some(chars_to_string(&out))
    }

    /// Compact the notes at time `now` when there are more than
    /// `MAX_NOTES_BEFORE_COMPACTION`: all but the most recent half of that
    /// limit are replaced by one `_compacted` summary note placed first.
    /// Returns whether compaction happened.
    pub fn compact_notes_at(&mut self, now: String) -> (r: bool)
        ensures
            r == (old(self).notes@.len() > MAX_NOTES_BEFORE_COMPACTION),
            !r ==> final(self).notes == old(self).notes,
            r ==> {
                let split = old(self).notes@.len() - MAX_NOTES_BEFORE_COMPACTION / 2;
                let older = old(self).notes@.subrange(0, split);
                let summary = final(self).notes@[0];
                &&& final(self).notes@.len() == 1 + MAX_NOTES_BEFORE_COMPACTION / 2
                &&& final(self).notes@.drop_first() == old(self).notes@.subrange(split, old(self).notes@.len() as int)
                &&& summary.key@ == "_compacted"@
                &&& summary.content@ == compacted_content(older)
                &&& summary.category matches Some(c) && c@ == "_system"@
                &&& summary.created_at == now
                &&& summary.updated_at == now
            },
            final(self).messages == old(self).messages,
            final(self).key == old(self).key,
    {
        let n = self.notes.len();
        if n <= MAX_NOTES_BEFORE_COMPACTION {
            return false;
        }
        let keep = MAX_NOTES_BEFORE_COMPACTION / 2;
        let split = n - keep;
        let ghost notes = self.notes@;
        let mut older: Vec<SessionNote> = Vec::new();
        let mut i: usize = 0;
        while i < split
            invariant
                i <= split <= n,
                n == self.notes@.len(),
                self.notes@ == notes,
                older@ == notes.subrange(0, i as int),
            decreases split - i,
        {
            older.push(self.notes[i].duplicate());
            assert(older@ =~= notes.subrange(0, i + 1));
            i = i + 1;
        }
        let items = count_categories(&older);
        let sorted = sort_strings(items);
        let mut parts: Vec<String> = Vec::new();
        let ghost want_parts = Seq::new(older@.len(), |i: int| "- "@ + older@[i].key@ + ": "@ + older@[i].content@);
        let mut k: usize = 0;
        while k < older.len()
            invariant
                k <= older.len(),
                want_parts == Seq::new(older@.len(), |i: int| "- "@ + older@[i].key@ + ": "@ + older@[i].content@),
                views(parts@) == want_parts.take(k as int),
            decreases older.len() - k,
        {
            let mut t = str_chars("- ");
            push_string(&mut t, &older[k].key);
            push_str(&mut t, ": ");
            push_string(&mut t, &older[k].content);
            let line = chars_to_string(&t);
            let ghost before = views(parts@);
            parts.push(line);
            assert(views(parts@) =~= before.push(line@));
            assert(want_parts.take(k + 1) =~= want_parts.take(k as int).push(line@));
            k = k + 1;
        }
        assert(want_parts.take(k as int) =~= want_parts);
        let mut c: Vec<char> = Vec::new();
        push_str(&mut c, "Compacted ");
        push_decimal(&mut c, older.len() as u64);
        push_str(&mut c, " older notes (");
        push_joined(&mut c, &sorted, ", ");
        push_str(&mut c, "). Key points:\n");
        push_joined(&mut c, &parts, "\n");
        assert(c@ =~= compacted_content(older@));
        let summary = SessionNote {
            key: String::from_str("_compacted"),
            content: chars_to_string(&c),
            category: Some(String::from_str("_system")),
            created_at: now.clone(),
            updated_at: now,
        };
        let mut result: Vec<SessionNote> = Vec::new();
        result.push(summary);
        let mut j = split;
        while j < n
            invariant
                split <= j <= n,
                n == self.notes@.len(),
                self.notes@ == notes,
                result@.len() == 1 + (j - split),
                result@.drop_first() == notes.subrange(split as int, j as int),
                result@[0] == summary,
            decreases n - j,
        {
            result.push(self.notes[j].duplicate());
            assert(result@.drop_first() =~= notes.subrange(split as int, j + 1));
            j = j + 1;
        }
        self.notes = result;
        true
    }

    /// Compact the notes (see `compact_notes_at`), stamped with the current time.
    pub fn compact_notes(&mut self) -> (r: bool)
        ensures
            r == (old(self).notes@.len() > MAX_NOTES_BEFORE_COMPACTION),
            !r ==> final(self).notes == old(self).notes,
            r ==> compacted_notes(old(self).notes@, final(self).notes@),
            final(self).messages == old(self).messages,
            final(self).key == old(self).key,
    {
        if self.notes.len() <= MAX_NOTES_BEFORE_COMPACTION {
            return false;
        }
        let now = now_rfc3339();
        self.compact_notes_at(now)
    }
}

// ---------------------------------------------------------------------------
// Notes as plain text
// ---------------------------------------------------------------------------

/// A note as plain text: key, content, category, created, updated.
pub type NoteView = (Seq<char>, Seq<char>, Option<Seq<char>>, Seq<char>, Seq<char>);

pub open spec fn opt_view(o: Option<String>) -> Option<Seq<char>> {
    match o {
        Some(s) => Some(s@),
        None => None,
    }
}

impl View for SessionNote {
    type V = NoteView;

    open spec fn view(&self) -> NoteView {
        (self.key@, self.content@, opt_view(self.category), self.created_at@, self.updated_at@)
    }
}

pub open spec fn note_views(s: Seq<SessionNote>) -> Seq<NoteView> {
    Seq::new(s.len(), |i: int| s[i]@)
}

/// First index `j >= i` of a note view with key `key`.
pub open spec fn view_index(notes: Seq<NoteView>, key: Seq<char>, i: int) -> Option<int>
    decreases notes.len() - i,
{
    if i < 0 || i >= notes.len() {
        None
    } else if notes[i].0 == key {
        Some(i)
    } else {
        view_index(notes, key, i + 1)
    }
}

/// `saved_notes` on plain text.
pub open spec fn saved_view(
    notes: Seq<NoteView>,
    key: Seq<char>,
    content: Seq<char>,
    category: Option<Seq<char>>,
    now: Seq<char>,
) -> Seq<NoteView> {
    match view_index(notes, key, 0) {
        Some(i) => notes.update(
            i,
            (
                notes[i].0,
                content,
                if category is Some {
                    category
                } else {
                    notes[i].2
                },
                notes[i].3,
                now,
            ),
        ),
        None => notes.push((key, content, category, now, now)),
    }
}

proof fn lemma_view_index(notes: Seq<SessionNote>, key: Seq<char>, i: int)
    requires
        0 <= i <= notes.len(),
    ensures
        view_index(note_views(notes), key, i) == note_index(notes, key, i),
    decreases notes.len() - i,
{
    if i < notes.len() {
        lemma_view_index(notes, key, i + 1);
    }
}

/// Saving a note, seen on plain text.
pub proof fn lemma_saved_view(
    notes: Seq<SessionNote>,
    key: String,
    content: String,
    category: Option<String>,
    now: String,
)
    ensures
        note_views(saved_notes(notes, key, content, category, now)) == saved_view(
            note_views(notes),
            key@,
            content@,
            opt_view(category),
            now@,
        ),
{
    lemma_view_index(notes, key@, 0);
    lemma_note_index(notes, key@, 0);
    let lhs = note_views(saved_notes(notes, key, content, category, now));
    let rhs = saved_view(note_views(notes), key@, content@, opt_view(category), now@);
    match note_index(notes, key@, 0) {
        Some(i) => {
            assert(note_views(notes)[i] == notes[i]@);
            assert forall|j: int| 0 <= j < lhs.len() implies lhs[j] == rhs[j] by {
                if j != i {
                    assert(lhs[j] == notes[j]@);
                }
            }
            assert(lhs =~= rhs);
        },
        None => {
            assert(lhs =~= rhs);
        },
    }
    assert(note_views(saved_notes(notes, key, content, category, now)) =~= saved_view(
        note_views(notes),
        key@,
        content@,
        opt_view(category),
        now@,
    ));
}

proof fn lemma_note_index_same_keys(a: Seq<SessionNote>, b: Seq<SessionNote>, key: Seq<char>, i: int)
    requires
        a.len() == b.len(),
        forall|j: int| 0 <= j < a.len() ==> #[trigger] a[j].key@ == b[j].key@,
    ensures
        note_index(a, key, i) == note_index(b, key, i),
    decreases a.len() - i,
{
    if 0 <= i < a.len() {
        lemma_note_index_same_keys(a, b, key, i + 1);
    }
}

proof fn lemma_note_index_pushed(notes: Seq<SessionNote>, n: SessionNote, key: Seq<char>, i: int)
    requires
        0 <= i <= notes.len(),
        n.key@ == key,
        forall|j: int| i <= j < notes.len() ==> notes[j].key@ != key,
    ensures
        note_index(notes.push(n), key, i) == Some(notes.len() as int),
    decreases notes.len() - i,
{
    if i < notes.len() {
        lemma_note_index_pushed(notes, n, key, i + 1);
    }
}

/// After saving a note under a key, looking that key up finds the note with
/// the saved content.
pub proof fn law_saved_note_is_found(
    notes: Seq<SessionNote>,
    key: String,
    content: String,
    category: Option<String>,
    now: String,
)
    ensures
        note_index(saved_notes(notes, key, content, category, now), key@, 0) matches Some(i)
            && saved_notes(notes, key, content, category, now)[i].content == content,
{
    lemma_note_index(notes, key@, 0);
    let s = saved_notes(notes, key, content, category, now);
    match note_index(notes, key@, 0) {
        Some(i) => {
            assert forall|j: int| 0 <= j < notes.len() implies #[trigger] notes[j].key@ == s[j].key@ by {}
            lemma_note_index_same_keys(notes, s, key@, 0);
        },
        None => {
            lemma_note_index_pushed(
                notes,
                SessionNote { key: key, content: content, category: category, created_at: now, updated_at: now },
                key@,
                0,
            );
        },
    }
}

proof fn lemma_without_has_no_key(notes: Seq<SessionNote>, key: Seq<char>)
    ensures
        forall|j: int| 0 <= j < notes_without(notes, key).len() ==> #[trigger] notes_without(notes, key)[j].key@ != key,
    decreases notes.len(),
{
    if notes.len() > 0 {
        lemma_without_has_no_key(notes.drop_last(), key);
    }
}

/// After deleting a key, no note with that key is left.
pub proof fn law_deleted_note_is_gone(notes: Seq<SessionNote>, key: Seq<char>)
    ensures
        note_index(notes_without(notes, key), key, 0) is None,
{
    lemma_without_has_no_key(notes, key);
    lemma_note_index(notes_without(notes, key), key, 0);
}

/// Truncation keeps a leading system message and the most recent messages:
/// `max` of them after the system message.
pub proof fn law_truncation_keeps_system_prompt(m: Seq<SessionEntry>, max: nat)
    requires
        m.len() > max,
        m[0].role == MessageRole::System,
    ensures
        truncated_history(m, max)[0] == m[0],
        truncated_history(m, max).len() == max + 1,
        forall|k: int| 0 <= k < max ==> #[trigger] truncated_history(m, max)[k + 1] == m[m.len() - max + k],
{
}

/// Without a leading system message, truncation keeps exactly the most
/// recent `max` messages, in order.
pub proof fn law_truncation_keeps_latest(m: Seq<SessionEntry>, max: nat)
    requires
        m.len() > max,
        m[0].role != MessageRole::System,
    ensures
        truncated_history(m, max).len() == max,
        forall|k: int| 0 <= k < max ==> #[trigger] truncated_history(m, max)[k] == m[m.len() - max + k],
        max > 0 ==> truncated_history(m, max)[max - 1] == m[m.len() - 1],
{
}

} // verus!
