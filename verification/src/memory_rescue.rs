//! Rescue of durable facts and error lessons from messages about to be
//! compacted away.
//!
//! The selection is heuristic (no LLM call): tool results and short
//! messages are skipped, the rest is classified by keywords, truncated, and
//! de-duplicated by its first hundred characters. Storing the rescued
//! entries in long-term memory is done by the caller.

use vstd::prelude::*;
use crate::text::trim_chars;
use crate::session::MessageRole;
use crate::session::SessionEntry;
use crate::text::contains_seq;
use crate::text::contains_str;
use crate::text::lowercase;
use crate::text::str_chars;
use crate::text::sub_vec;
use crate::text::chars_eq;
use crate::text::chars_to_string;
use crate::text::to_lowercase;
use crate::text::trim;
use crate::text::truncate_bytes;
use crate::text::truncate_to_bytes;
use crate::text::utf8_len;
use crate::text::utf8_len_at_least;

verus! {

/// Longest rescued content, in bytes (longer content is cut and marked `...`).
pub const MAX_MEMORY_LEN: usize = 500;

/// Kind of a long-term memory entry.
#[derive(Debug, Clone, Copy, PartialEq, Eq, Structural)]
pub enum MemoryCategory {
    Fact,
    Preference,
    ErrorLesson,
    AgentNote,
}

/// Content mentioning an error or a fix.
pub open spec fn mentions_error(l: Seq<char>) -> bool {
    contains_seq(l, "error"@) || contains_seq(l, "failed"@) || contains_seq(l, "bug"@) || contains_seq(l, "fix"@)
        || contains_seq(l, "issue"@)
}

/// Content recording a decision.
pub open spec fn mentions_decision(l: Seq<char>) -> bool {
    contains_seq(l, "decided"@) || contains_seq(l, "chose"@) || contains_seq(l, "will use"@) || contains_seq(
        l,
        "agreed"@,
    ) || contains_seq(l, "going with"@) || contains_seq(l, "let's use"@)
}

/// The candidate a message yields, if any: its trimmed content (at least 20
/// bytes, not a tool result), classified as an error lesson, a decision
/// (fact), or, for a user message of at least 30 bytes, an agent note.
pub open spec fn rescue_of(e: SessionEntry) -> Option<(Seq<char>, MemoryCategory)> {
    let t = trim(e.content@);
    let l = lowercase(t);
    if utf8_len(t) < 20 || e.role == MessageRole::Tool {
        None
    } else if mentions_error(l) {
        Some((truncate_bytes(t, MAX_MEMORY_LEN as nat), MemoryCategory::ErrorLesson))
    } else if mentions_decision(l) {
        Some((truncate_bytes(t, MAX_MEMORY_LEN as nat), MemoryCategory::Fact))
    } else if e.role == MessageRole::User && utf8_len(t) >= 30 {
        Some((truncate_bytes(t, MAX_MEMORY_LEN as nat), MemoryCategory::AgentNote))
    } else {
        None
    }
}

/// The candidates of the messages, in order.
pub open spec fn raw_candidates(m: Seq<SessionEntry>) -> Seq<(Seq<char>, MemoryCategory)>
    decreases m.len(),
{
    if m.len() == 0 {
        Seq::empty()
    } else {
        match rescue_of(m.last()) {
            Some(c) => raw_candidates(m.drop_last()).push(c),
            None => raw_candidates(m.drop_last()),
        }
    }
}

/// The de-duplication key of a candidate: its first hundred characters.
pub open spec fn dedup_key(c: Seq<char>) -> Seq<char> {
    if c.len() <= 100 {
        c
    } else {
        c.take(100)
    }
}

/// The candidates whose key no earlier candidate has.
pub open spec fn dedup(c: Seq<(Seq<char>, MemoryCategory)>) -> Seq<(Seq<char>, MemoryCategory)>
    decreases c.len(),
{
    if c.len() == 0 {
        Seq::empty()
    } else if exists|j: int| 0 <= j < c.len() - 1 && dedup_key(#[trigger] c[j].0) == dedup_key(c.last().0) {
        dedup(c.drop_last())
    } else {
        dedup(c.drop_last()).push(c.last())
    }
}

/// The content worth persisting from the messages about to be compacted.
pub open spec fn rescue_candidates(m: Seq<SessionEntry>) -> Seq<(Seq<char>, MemoryCategory)> {
    dedup(raw_candidates(m))
}

/// Truncate content to `MAX_MEMORY_LEN` bytes for memory storage.
pub fn truncate_for_memory(s: &str) -> (r: String)
    ensures
        r@ == truncate_bytes(s@, MAX_MEMORY_LEN as nat),
{
    truncate_to_bytes(s, MAX_MEMORY_LEN)
}

fn any_of(l: &Vec<char>, words: &Vec<&str>) -> (r: bool)
    ensures
        r == exists|i: int| 0 <= i < words@.len() && contains_seq(l@, #[trigger] words@[i]@),
{
    let mut i: usize = 0;
    while i < words.len()
        invariant
            i <= words.len(),
            forall|j: int| 0 <= j < i ==> !contains_seq(l@, #[trigger] words@[j]@),
        decreases words.len() - i,
    {
        if contains_str(l, words[i]) {
            return true;
        }
        i = i + 1;
    }
    false
}

/// The candidate a message yields (see `rescue_of`).
pub fn rescue_candidate(e: &SessionEntry) -> (r: Option<(String, MemoryCategory)>)
    ensures
        match r {
            Some(c) => rescue_of(*e) == Some((c.0@, c.1)),
            None => rescue_of(*e) is None,
        },
{
    let t = trim_chars(&str_chars(e.content.as_str()));
    if !utf8_len_at_least(&t, 20) || e.role == MessageRole::Tool {
        return None;
    }
    let text = chars_to_string(&t);
    let lower_s = to_lowercase(text.as_str());
    let l = str_chars(lower_s.as_str());
    let errs = vec!["error", "failed", "bug", "fix", "issue"];
    let decisions = vec!["decided", "chose", "will use", "agreed", "going with", "let's use"];
    let is_err = any_of(&l, &errs);
    proof {
        if mentions_error(l@) {
            if contains_seq(l@, "error"@) { assert(contains_seq(l@, errs@[0]@)); }
            if contains_seq(l@, "failed"@) { assert(contains_seq(l@, errs@[1]@)); }
            if contains_seq(l@, "bug"@) { assert(contains_seq(l@, errs@[2]@)); }
            if contains_seq(l@, "fix"@) { assert(contains_seq(l@, errs@[3]@)); }
            if contains_seq(l@, "issue"@) { assert(contains_seq(l@, errs@[4]@)); }
        }
    }
    if is_err {
        return Some((truncate_for_memory(text.as_str()), MemoryCategory::ErrorLesson));
    }
    let is_decision = any_of(&l, &decisions);
    proof {
        if mentions_decision(l@) {
            if contains_seq(l@, "decided"@) { assert(contains_seq(l@, decisions@[0]@)); }
            if contains_seq(l@, "chose"@) { assert(contains_seq(l@, decisions@[1]@)); }
            if contains_seq(l@, "will use"@) { assert(contains_seq(l@, decisions@[2]@)); }
            if contains_seq(l@, "agreed"@) { assert(contains_seq(l@, decisions@[3]@)); }
            if contains_seq(l@, "going with"@) { assert(contains_seq(l@, decisions@[4]@)); }
            if contains_seq(l@, "let's use"@) { assert(contains_seq(l@, decisions@[5]@)); }
        }
    }
    if is_decision {
        return Some((truncate_for_memory(text.as_str()), MemoryCategory::Fact));
    }
    if e.role == MessageRole::User && utf8_len_at_least(&t, 30) {
        return Some((truncate_for_memory(text.as_str()), MemoryCategory::AgentNote));
    }
    None
}

fn key_chars(c: &String) -> (k: Vec<char>)
    ensures
        k@ == dedup_key(c@),
{
    let v = str_chars(c.as_str());
    if v.len() <= 100 {
        v
    } else {
        let k = sub_vec(&v, 0, 100);
        assert(v@.subrange(0, 100) =~= v@.take(100));
        k
    }
}

/// Candidates as plain values.
pub open spec fn candidate_views(s: Seq<(String, MemoryCategory)>) -> Seq<(Seq<char>, MemoryCategory)> {
    Seq::new(s.len(), |i: int| (s[i].0@, s[i].1))
}

/// Heuristically extract the durable facts and lessons from the messages
/// about to be compacted (see `rescue_candidates`).
pub fn extract_rescue_candidates(messages: &[SessionEntry]) -> (r: Vec<(String, MemoryCategory)>)
    ensures
        candidate_views(r@) == rescue_candidates(messages@),
{
    let ghost m = messages@;
    let mut raw: Vec<(String, MemoryCategory)> = Vec::new();
    let mut i: usize = 0;
    assert(m.take(0) =~= Seq::<SessionEntry>::empty());
    assert(candidate_views(raw@) =~= Seq::<(Seq<char>, MemoryCategory)>::empty());
    while i < messages.len()
        invariant
            i <= messages.len(),
            m == messages@,
            candidate_views(raw@) == raw_candidates(m.take(i as int)),
        decreases messages.len() - i,
    {
        assert(m.take(i + 1).drop_last() =~= m.take(i as int));
        assert(m.take(i + 1).last() == m[i as int]);
        match rescue_candidate(&messages[i]) {
            Some(c) => {
                let ghost before = candidate_views(raw@);
                let ghost cv = (c.0@, c.1);
                raw.push(c);
                assert(candidate_views(raw@) =~= before.push(cv));
            },
            None => {},
        }
        i = i + 1;
    }
    assert(m.take(i as int) =~= m);
    let ghost rv = candidate_views(raw@);
    let mut keys: Vec<Vec<char>> = Vec::new();
    let mut kept: Vec<(String, MemoryCategory)> = Vec::new();
    let mut k: usize = 0;
    assert(rv.take(0) =~= Seq::<(Seq<char>, MemoryCategory)>::empty());
    assert(candidate_views(kept@) =~= Seq::<(Seq<char>, MemoryCategory)>::empty());
    while k < raw.len()
        invariant
            k <= raw.len(),
            rv == candidate_views(raw@),
            keys@.len() == k,
            forall|j: int| 0 <= j < k ==> (#[trigger] keys@[j])@ == dedup_key(rv[j].0),
            candidate_views(kept@) == dedup(rv.take(k as int)),
        decreases raw.len() - k,
    {
        let key = key_chars(&raw[k].0);
        let mut seen = false;
        let mut j: usize = 0;
        while j < keys.len()
            invariant
                j <= keys.len(),
                keys@.len() == k,
                k < raw.len(),
                forall|q: int| 0 <= q < k ==> (#[trigger] keys@[q])@ == dedup_key(rv[q].0),
                key@ == dedup_key(rv[k as int].0),
                seen == exists|q: int| 0 <= q < j && dedup_key(#[trigger] rv[q].0) == dedup_key(rv[k as int].0),
            decreases keys.len() - j,
        {
            if chars_eq(&keys[j], &key) {
                seen = true;
            }
            proof {
                if seen {
                    if !(exists|q: int| 0 <= q < j && dedup_key(#[trigger] rv[q].0) == dedup_key(rv[k as int].0)) {
                        assert(dedup_key(rv[j as int].0) == dedup_key(rv[k as int].0));
                    }
                }
            }
            j = j + 1;
        }
        let ghost pre = rv.take(k as int);
        let ghost nxt = rv.take(k + 1);
        assert(nxt.drop_last() =~= pre);
        assert(nxt.last() == rv[k as int]);
        assert(seen == exists|q: int| 0 <= q < nxt.len() - 1 && dedup_key(#[trigger] nxt[q].0) == dedup_key(nxt.last().0)) by {
            if seen {
                let q = choose|q: int| 0 <= q < k && dedup_key(#[trigger] rv[q].0) == dedup_key(rv[k as int].0);
                assert(nxt[q] == rv[q]);
            }
            if exists|q: int| 0 <= q < nxt.len() - 1 && dedup_key(#[trigger] nxt[q].0) == dedup_key(nxt.last().0) {
                let q = choose|q: int| 0 <= q < nxt.len() - 1 && dedup_key(#[trigger] nxt[q].0) == dedup_key(nxt.last().0);
                assert(nxt[q] == rv[q]);
            }
        }
        if !seen {
            let c = &raw[k];
            let copy = (c.0.clone(), c.1);
            let ghost before = candidate_views(kept@);
            kept.push(copy);
            assert(candidate_views(kept@) =~= before.push(rv[k as int]));
        }
        keys.push(key);
        k = k + 1;
    }
    assert(rv.take(k as int) =~= rv);
    kept
}

/// Rescues extracted candidates into a long-term memory store of type `S`.
#[derive(Debug)]
pub struct MemoryRescueHook<S> {
    store: S,
}

impl<S> MemoryRescueHook<S> {
    /// A rescue hook backed by the given memory store.
    pub fn new(store: S) -> (h: Self)
        ensures
            h.store_spec() == store,
    {
        MemoryRescueHook { store }
    }

    pub closed spec fn store_spec(&self) -> S {
        self.store
    }

    /// The store the rescued entries go to.
    pub fn store(&self) -> (s: &S)
        ensures
            *s == self.store_spec(),
    {
        &self.store
    }

    /// The hook's name.
    pub fn name(&self) -> (s: &'static str)
        ensures
            s@ == "memory_rescue"@,
    {
        "memory_rescue"
    }
}

proof fn lemma_dedup_from(c: Seq<(Seq<char>, MemoryCategory)>)
    ensures
        forall|i: int| 0 <= i < dedup(c).len() ==> exists|j: int| 0 <= j < c.len() && #[trigger] dedup(c)[i] == c[j],
        forall|i: int, k: int|
            0 <= i < k < dedup(c).len() ==> dedup_key(#[trigger] dedup(c)[i].0) != dedup_key(#[trigger] dedup(c)[k].0),
    decreases c.len(),
{
    if c.len() > 0 {
        let p = c.drop_last();
        lemma_dedup_from(p);
        let d = dedup(c);
        if exists|j: int| 0 <= j < c.len() - 1 && dedup_key(#[trigger] c[j].0) == dedup_key(c.last().0) {
            assert forall|i: int| 0 <= i < d.len() implies exists|j: int| 0 <= j < c.len() && #[trigger] d[i] == c[j] by {
                let j = choose|j: int| 0 <= j < p.len() && dedup(p)[i] == p[j];
                assert(d[i] == c[j]);
            }
        } else {
            let dp = dedup(p);
            assert(d == dp.push(c.last()));
            assert forall|i: int| 0 <= i < d.len() implies exists|j: int| 0 <= j < c.len() && #[trigger] d[i] == c[j] by {
                if i < dp.len() {
                    let j = choose|j: int| 0 <= j < p.len() && dp[i] == p[j];
                    assert(d[i] == c[j]);
                } else {
                    assert(d[i] == c[c.len() - 1]);
                }
            }
            assert forall|i: int, k: int|
                0 <= i < k < d.len() implies dedup_key(#[trigger] d[i].0) != dedup_key(#[trigger] d[k].0) by {
                if k == dp.len() {
                    let j = choose|j: int| 0 <= j < p.len() && dp[i] == p[j];
                    assert(c[j] == p[j]);
                    if dedup_key(d[i].0) == dedup_key(d[k].0) {
                        assert(0 <= j < c.len() - 1 && dedup_key(c[j].0) == dedup_key(c.last().0));
                    }
                } else {
                    assert(d[i] == dp[i] && d[k] == dp[k]);
                }
            }
        }
    }
}

/// No two rescued candidates share their de-duplication key (their first
/// hundred characters).
pub proof fn law_rescued_keys_distinct(m: Seq<SessionEntry>, i: int, k: int)
    requires
        0 <= i < k < rescue_candidates(m).len(),
    ensures
        dedup_key(rescue_candidates(m)[i].0) != dedup_key(rescue_candidates(m)[k].0),
{
    lemma_dedup_from(raw_candidates(m));
}

} // verus!
