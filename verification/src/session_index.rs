//! The rows of the full-text session index: how a session's source and its
//! messages are recorded, and how a search query is made safe for FTS5.
//!
//! Running the SQL is done by the caller.

use vstd::prelude::*;
use crate::session::MessageRole;
use crate::session::Session;
use crate::session::SessionEntry;
use crate::session::SessionSource;
use crate::session::opt_view;
use crate::text::chars_to_string;
use crate::text::lemma_skip_ws_back_bounds;
use crate::text::lemma_skip_ws_bounds;
use crate::text::skip_ws_back_exec;
use crate::text::skip_ws_exec;
use crate::text::str_chars;
use crate::text::trim;

verus! {

/// `s` with every `"` doubled.
pub open spec fn double_quotes(s: Seq<char>) -> Seq<char>
    decreases s.len(),
{
    if s.len() == 0 {
        Seq::empty()
    } else if s.last() == '"' {
        double_quotes(s.drop_last()) + seq!['"', '"']
    } else {
        double_quotes(s.drop_last()).push(s.last())
    }
}

/// An FTS5 phrase query for the raw text: empty for blank text, else the
/// trimmed text in double quotes, inner quotes doubled.
pub open spec fn fts_query(raw: Seq<char>) -> Seq<char> {
    let t = trim(raw);
    if t.len() == 0 {
        Seq::empty()
    } else {
        seq!['"'] + double_quotes(t) + seq!['"']
    }
}

/// Sanitize a raw query string into an FTS5-safe phrase query.
pub fn sanitize_fts_query(raw: &str) -> (r: String)
    ensures
        r@ == fts_query(raw@),
{
    let c = str_chars(raw);
    let a = skip_ws_exec(&c, 0);
    let b = skip_ws_back_exec(&c, a, c.len());
    proof {
        lemma_skip_ws_bounds(c@, 0);
        lemma_skip_ws_back_bounds(c@, a as int, c@.len() as int);
    }
    let ghost t = c@.subrange(a as int, b as int);
    assert(t == trim(raw@));
    if a >= b {
        return String::new();
    }
    let mut out: Vec<char> = Vec::new();
    out.push('"');
    let mut i = a;
    assert(t.subrange(0, 0) =~= Seq::<char>::empty());
    while i < b
        invariant
            a <= i <= b <= c.len(),
            t == c@.subrange(a as int, b as int),
            out@ == seq!['"'] + double_quotes(t.subrange(0, i - a)),
        decreases b - i,
    {
        assert(t.subrange(0, i + 1 - a).drop_last() =~= t.subrange(0, i - a));
        if c[i] == '"' {
            out.push('"');
            out.push('"');
        } else {
            out.push(c[i]);
        }
        assert(out@ =~= seq!['"'] + double_quotes(t.subrange(0, i + 1 - a)));
        i = i + 1;
    }
    out.push('"');
    assert(t.subrange(0, b - a) =~= t);
    chars_to_string(&out)
}

/// The stored name of a role.
pub open spec fn role_name(role: MessageRole) -> Seq<char> {
    match role {
        MessageRole::System => "system"@,
        MessageRole::User => "user"@,
        MessageRole::Assistant => "assistant"@,
        MessageRole::Tool => "tool"@,
    }
}

/// Map a role to its lower-case stored name.
pub fn role_str(role: &MessageRole) -> (s: &'static str)
    ensures
        s@ == role_name(*role),
{
    match role {
        MessageRole::System => "system",
        MessageRole::User => "user",
        MessageRole::Assistant => "assistant",
        MessageRole::Tool => "tool",
    }
}

/// The display name of a source: the chat name, else the chat topic, else
/// the user name.
pub open spec fn fallback_name(s: SessionSource) -> Option<Seq<char>> {
    match s.chat_name {
        Some(n) => Some(n@),
        None => match s.chat_topic {
            Some(t) => Some(t@),
            None => opt_view(s.user_name),
        },
    }
}

fn clone_opt(o: &Option<String>) -> (r: Option<String>)
    ensures
        opt_view(r) == opt_view(*o),
{
    match o {
        Some(s) => Some(s.clone()),
        None => None,
    }
}

impl SessionSource {
    /// The display name derived from the source (see `fallback_name`).
    pub fn display_name_fallback(&self) -> (r: Option<String>)
        ensures
            opt_view(r) == fallback_name(*self),
    {
        match &self.chat_name {
            Some(n) => Some(n.clone()),
            None => match &self.chat_topic {
                Some(t) => Some(t.clone()),
                None => clone_opt(&self.user_name),
            },
        }
    }
}

/// The session columns taken from a source.
#[derive(Debug, Clone)]
pub struct SourceColumns {
    pub platform: String,
    pub chat_id: Option<String>,
    pub chat_type: String,
    pub thread_id: Option<String>,
    pub user_id: Option<String>,
    pub user_name: Option<String>,
    pub display_name: Option<String>,
}

/// The session columns of a session: from its source, or `local` / `dm`
/// with nothing else for a session without one.
pub fn decompose_source(session: &Session) -> (c: SourceColumns)
    ensures
        match session.source {
            Some(s) => {
                &&& c.platform@ == s.platform@
                &&& opt_view(c.chat_id) == Some(s.chat_id@)
                &&& c.chat_type@ == s.chat_type@
                &&& opt_view(c.thread_id) == opt_view(s.thread_id)
                &&& opt_view(c.user_id) == opt_view(s.user_id)
                &&& opt_view(c.user_name) == opt_view(s.user_name)
                &&& opt_view(c.display_name) == fallback_name(s)
            },
            None => {
                &&& c.platform@ == "local"@
                &&& c.chat_id is None
                &&& c.chat_type@ == "dm"@
                &&& c.thread_id is None
                &&& c.user_id is None
                &&& c.user_name is None
                &&& c.display_name is None
            },
        },
{
    match &session.source {
        Some(s) => SourceColumns {
            platform: s.platform.clone(),
            chat_id: Some(s.chat_id.clone()),
            chat_type: s.chat_type.clone(),
            thread_id: clone_opt(&s.thread_id),
            user_id: clone_opt(&s.user_id),
            user_name: clone_opt(&s.user_name),
            display_name: s.display_name_fallback(),
        },
        None => SourceColumns {
            platform: String::from_str("local"),
            chat_id: None,
            chat_type: String::from_str("dm"),
            thread_id: None,
            user_id: None,
            user_name: None,
            display_name: None,
        },
    }
}

/// The indexed columns of one message.
#[derive(Debug, Clone)]
pub struct MessageColumns {
    pub role: &'static str,
    /// The searchable text: empty for tool results, which are kept out of search.
    pub fts_content: String,
    pub tool_call_id: Option<String>,
    /// Name of the first tool call, if any.
    pub tool_name: Option<String>,
    /// Estimated tokens: a quarter of the character count.
    pub token_count: i64,
}

/// The indexed columns of a message.
pub fn message_columns(entry: &SessionEntry) -> (c: MessageColumns)
    ensures
        c.role@ == role_name(entry.role),
        c.fts_content@ == (if entry.role == MessageRole::Tool {
            Seq::<char>::empty()
        } else {
            entry.content@
        }),
        opt_view(c.tool_call_id) == opt_view(entry.tool_call_id),
        opt_view(c.tool_name) == match entry.tool_calls {
            Some(v) => if v@.len() > 0 {
                Some(v@[0].name@)
            } else {
                None
            },
            None => None,
        },
        c.token_count as int == entry.content@.len() / 4,
{
    let chars = str_chars(entry.content.as_str());
    let fts = if entry.role == MessageRole::Tool {
        String::new()
    } else {
        entry.content.clone()
    };
    let tool_name = match &entry.tool_calls {
        Some(v) => if v.len() > 0 {
            Some(v[0].name.clone())
        } else {
            None
        },
        None => None,
    };
    MessageColumns {
        role: role_str(&entry.role),
        fts_content: fts,
        tool_call_id: clone_opt(&entry.tool_call_id),
        tool_name,
        token_count: (chars.len() / 4) as i64,
    }
}

} // verus!
