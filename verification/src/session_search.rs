//! The `session_search` tool: which of its four modes a call selects, with
//! the limits each mode applies, and the head-and-tail selection of a long
//! session read.
//!
//! - Discovery: a `query` → full-text search across sessions.
//! - Scroll: `session_id` and `around_message_id` → a window around a message.
//! - Read: `session_id` alone → the session's head (and tail when long).
//! - Browse: no arguments → the recent sessions.
//!
//! Querying the session index and writing the JSON reply is done by the caller.

use vstd::prelude::*;
use crate::text::chars_to_string;
use crate::text::decimal;
use crate::text::push_decimal;
use crate::text::push_str;
use crate::text::str_chars;
use crate::text::truncate_bytes;
use crate::text::truncate_to_bytes;

verus! {

/// The tool's name.
pub fn tool_name() -> (s: &'static str)
    ensures
        s@ == "session_search"@,
{
    "session_search"
}

/// The tool's description.
pub fn tool_description() -> (s: &'static str)
    ensures
        s@ == "Search past conversation history for relevant context. Supports four modes: (1) pass 'query' for full-text search across all sessions; (2) pass 'session_id' + 'around_message_id' to scroll around a specific message; (3) pass 'session_id' only to read an entire session; (4) pass no arguments to list recent sessions. Use this to recall details, decisions, or outcomes from past conversations that are no longer in the active context window."@,
{
    "Search past conversation history for relevant context. Supports four modes: (1) pass 'query' for full-text search across all sessions; (2) pass 'session_id' + 'around_message_id' to scroll around a specific message; (3) pass 'session_id' only to read an entire session; (4) pass no arguments to list recent sessions. Use this to recall details, decisions, or outcomes from past conversations that are no longer in the active context window."
}

/// A search call, by mode, with its effective limit.
#[derive(Debug, Clone)]
pub enum SearchMode {
    Discovery { query: String, limit: usize },
    Scroll { session_id: String, anchor: i64, window: usize },
    Read { session_id: String, limit: usize },
    Browse { limit: usize },
}

/// `v` clamped to `lo..=hi`.
pub open spec fn clamp(v: int, lo: int, hi: int) -> int {
    if v < lo {
        lo
    } else if v > hi {
        hi
    } else {
        v
    }
}

fn clamp_exec(v: usize, lo: usize, hi: usize) -> (r: usize)
    requires
        lo <= hi,
    ensures
        r as int == clamp(v as int, lo as int, hi as int),
{
    if v < lo {
        lo
    } else if v > hi {
        hi
    } else {
        v
    }
}

/// The limit given, or `default`, clamped to `lo..=hi`.
pub open spec fn effective(limit: Option<u64>, default: int, lo: int, hi: int) -> int {
    clamp(
        match limit {
            Some(l) => (l as usize) as int,
            None => default,
        },
        lo,
        hi,
    )
}

/// Select the mode of a call: a query means discovery (limit 5 by default,
/// 1 to 50); a session id with an anchor means scroll (window 10, 1 to 20); a
/// session id alone means read (30, 1 to 50); nothing means browse (10, 1 to 50).
pub fn search_mode(query: Option<&str>, session_id: Option<&str>, around_message_id: Option<i64>, limit: Option<u64>) -> (m: SearchMode)
    ensures
        match query {
            Some(q) => m matches SearchMode::Discovery { query: mq, limit: l } && mq@ == q@ && l as int == effective(limit, 5, 1, 50),
            None => match session_id {
                Some(s) => match around_message_id {
                    Some(a) => m matches SearchMode::Scroll { session_id: ms, anchor: ma, window: w } && ms@ == s@ && ma == a
                        && w as int == effective(limit, 10, 1, 20),
                    None => m matches SearchMode::Read { session_id: ms, limit: l } && ms@ == s@ && l as int == effective(limit, 30, 1, 50),
                },
                None => m matches SearchMode::Browse { limit: l } && l as int == effective(limit, 10, 1, 50),
            },
        },
{
    let given = |d: usize| -> (r: usize)
        ensures
            r as int == match limit {
                Some(l) => (l as usize) as int,
                None => d as int,
            },
        {
            match limit {
                Some(l) => l as usize,
                None => d,
            }
        };
    if let Some(q) = query {
        return SearchMode::Discovery { query: String::from_str(q), limit: clamp_exec(given(5), 1, 50) };
    }
    if let Some(s) = session_id {
        if let Some(a) = around_message_id {
            return SearchMode::Scroll { session_id: String::from_str(s), anchor: a, window: clamp_exec(given(10), 1, 20) };
        }
        return SearchMode::Read { session_id: String::from_str(s), limit: clamp_exec(given(30), 1, 50) };
    }
    SearchMode::Browse { limit: clamp_exec(given(10), 1, 50) }
}

/// Truncate a message to `max` bytes (at a character boundary), appending
/// `...` when cut.
pub fn truncate_str(s: &str, max: usize) -> (r: String)
    ensures
        r@ == truncate_bytes(s@, max as nat),
{
    truncate_to_bytes(s, max)
}

/// How a session read is assembled.
#[derive(Debug, Clone, Copy, PartialEq, Eq, Structural)]
pub enum ReadPlan {
    /// The head batch is the whole session: show it.
    HeadOnly,
    /// The session is short enough to show whole: fetch its `count`
    /// messages from the start.
    WholeSession { count: usize },
    /// Show the first `head_count` messages, a gap note for `omitted`
    /// messages, then the last `tail_len` messages of the session, which
    /// start at `tail_start`.
    HeadAndTail { head_count: usize, tail_start: usize, tail_len: usize, omitted: usize },
}

/// The number of tail messages shown: half the limit, at least three.
pub open spec fn tail_limit(limit: nat) -> nat {
    if limit / 2 > 3 {
        limit / 2
    } else {
        3
    }
}

/// Whether the head batch of `head_count` messages (fetched with `limit`)
/// may leave out later messages, so that the session's length is needed.
pub fn needs_tail(limit: usize, head_count: usize) -> (b: bool)
    ensures
        b == (head_count == limit),
{
    head_count == limit
}

/// The plan of a read of a session holding `total` messages: the head batch
/// when it was not full; else head and the session's last messages around
/// a gap when the session holds more than `limit` plus the tail size, or the
/// whole session.
pub fn read_plan(limit: usize, head_count: usize, total: usize) -> (p: ReadPlan)
    requires
        limit <= 50,
    ensures
        head_count != limit ==> p == ReadPlan::HeadOnly,
        head_count == limit ==> p == if total > limit + tail_limit(limit as nat) {
            ReadPlan::HeadAndTail {
                head_count,
                tail_start: (total - tail_limit(limit as nat)) as usize,
                tail_len: tail_limit(limit as nat) as usize,
                omitted: (total - tail_limit(limit as nat) - head_count) as usize,
            }
        } else {
            ReadPlan::WholeSession { count: total }
        },
{
    if head_count != limit {
        return ReadPlan::HeadOnly;
    }
    let tail = if limit / 2 > 3 {
        limit / 2
    } else {
        3
    };
    if total > limit + tail {
        let tail_start = total - tail;
        ReadPlan::HeadAndTail { head_count, tail_start, tail_len: tail, omitted: tail_start - head_count }
    } else {
        ReadPlan::WholeSession { count: total }
    }
}

/// The synthetic message marking the omitted middle of a session.
pub fn gap_text(omitted: usize) -> (s: String)
    ensures
        s@ == "... "@ + decimal(omitted as nat) + " earlier messages omitted ..."@,
{
    let mut t = str_chars("... ");
    push_decimal(&mut t, omitted as u64);
    push_str(&mut t, " earlier messages omitted ...");
    chars_to_string(&t)
}

} // verus!
