//! Structured notes: persistent key-value notes that the agent writes during
//! a conversation, stored in the session, and the extraction of
//! `[NOTE:key(:category)]content[/NOTE]` blocks from agent responses.

use vstd::prelude::*;
use crate::text::trim_chars;
use crate::clock::now_rfc3339;
use crate::session::NoteView;
use crate::session::Session;
use crate::session::SessionNote;
use crate::session::lemma_saved_view;
use crate::session::note_views;
use crate::session::notes_context;
use crate::session::notes_in;
use crate::session::notes_without;
use crate::session::note_index;
use crate::session::opt_view;
use crate::session::saved_notes;
use crate::session::saved_view;
use crate::text::str_chars;
use crate::text::chars_to_string;
use crate::text::trim;
use crate::text::matches_at;
use crate::text::matches_at_exec;
use crate::text::sub_vec;

verus! {

/// A single structured note (the same fields as a session note).
#[derive(Debug, Clone, PartialEq, Eq)]
pub struct Note {
    pub key: String,
    pub content: String,
    pub category: Option<String>,
    pub created_at: String,
    pub updated_at: String,
}

impl View for Note {
    type V = NoteView;

    open spec fn view(&self) -> NoteView {
        (self.key@, self.content@, opt_view(self.category), self.created_at@, self.updated_at@)
    }
}

/// The views of a sequence of notes.
pub open spec fn plain_notes(s: Seq<Note>) -> Seq<NoteView> {
    Seq::new(s.len(), |i: int| s[i]@)
}

fn to_note(n: &SessionNote) -> (r: Note)
    ensures
        r@ == n@,
{
    Note {
        key: n.key.clone(),
        content: n.content.clone(),
        category: match &n.category {
            Some(c) => Some(c.clone()),
            None => None,
        },
        created_at: n.created_at.clone(),
        updated_at: n.updated_at.clone(),
    }
}

/// One `[NOTE:key(:category)]content[/NOTE]` block as found in a response
/// (content not yet trimmed).
#[derive(Debug, Clone)]
pub struct NoteBlock {
    pub key: String,
    pub category: Option<String>,
    pub content: String,
}

/// A block as plain text: key, category, content.
pub type BlockView = (Seq<char>, Option<Seq<char>>, Seq<char>);

impl View for NoteBlock {
    type V = BlockView;

    open spec fn view(&self) -> BlockView {
        (self.key@, opt_view(self.category), self.content@)
    }
}

pub open spec fn block_views(s: Seq<NoteBlock>) -> Seq<BlockView> {
    Seq::new(s.len(), |i: int| s[i]@)
}

/// The opening of a note block: `[NOTE:`.
pub open spec fn open_pat() -> Seq<char> {
    seq!['[', 'N', 'O', 'T', 'E', ':']
}

/// The end of a note block: `[/NOTE]`.
pub open spec fn close_pat() -> Seq<char> {
    seq!['[', '/', 'N', 'O', 'T', 'E', ']']
}

/// End of the key that starts at `i`: the first `:` or `]` (or the end).
pub open spec fn key_end(s: Seq<char>, i: int) -> int
    decreases s.len() - i,
{
    if i < 0 || i >= s.len() || s[i] == ':' || s[i] == ']' {
        i
    } else {
        key_end(s, i + 1)
    }
}

/// End of the category that starts at `i`: the first `]` (or the end).
pub open spec fn cat_end(s: Seq<char>, i: int) -> int
    decreases s.len() - i,
{
    if i < 0 || i >= s.len() || s[i] == ']' {
        i
    } else {
        cat_end(s, i + 1)
    }
}

/// Start of the first `[/NOTE]` at or after `i` that no line break precedes;
/// none when a line break (or the end) comes first.
pub open spec fn content_end(s: Seq<char>, i: int) -> Option<int>
    decreases s.len() - i,
{
    if i < 0 || i >= s.len() {
        None
    } else if matches_at(s, i, close_pat()) {
        Some(i)
    } else if s[i] == '\n' {
        None
    } else {
        content_end(s, i + 1)
    }
}

/// The block starting at `i`, and where it ends: `[NOTE:`, a key (one or
/// more characters other than `:` and `]`), optionally `:` and a category
/// (one or more characters other than `]`), `]`, then the content up to the
/// first `[/NOTE]` on the same line.
pub open spec fn block_at(s: Seq<char>, i: int) -> Option<(BlockView, int)> {
    if !matches_at(s, i, open_pat()) {
        None
    } else {
        let k0 = i + 6;
        let ke = key_end(s, k0);
        if ke <= k0 || ke >= s.len() {
            None
        } else {
            let (cat, cs) = if s[ke] == ']' {
                (None::<Seq<char>>, ke + 1)
            } else {
                let ce = cat_end(s, ke + 1);
                if ce <= ke + 1 || ce >= s.len() {
                    (None::<Seq<char>>, -1)
                } else {
                    (Some(s.subrange(ke + 1, ce)), ce + 1)
                }
            };
            if cs < 0 {
                None
            } else {
                match content_end(s, cs) {
                    Some(j) => Some(((s.subrange(k0, ke), cat, s.subrange(cs, j)), j + 7)),
                    None => None,
                }
            }
        }
    }
}

/// The blocks of `s` from position `i`, leftmost first, not overlapping.
pub open spec fn blocks_from(s: Seq<char>, i: int) -> Seq<BlockView>
    decreases s.len() - i,
{
    if i < 0 || i >= s.len() {
        Seq::empty()
    } else {
        match block_at(s, i) {
            Some((b, e)) => if i < e <= s.len() {
                seq![b] + blocks_from(s, e)
            } else {
                Seq::empty()
            },
            None => blocks_from(s, i + 1),
        }
    }
}

/// The note blocks of a response, in order.
pub open spec fn note_blocks(text: Seq<char>) -> Seq<BlockView> {
    blocks_from(text, 0)
}

fn key_end_exec(s: &Vec<char>, i: usize) -> (r: usize)
    requires
        i <= s@.len(),
    ensures
        r as int == key_end(s@, i as int),
        i <= r <= s@.len(),
{
    let mut j = i;
    while j < s.len() && s[j] != ':' && s[j] != ']'
        invariant
            i <= j <= s@.len(),
            key_end(s@, i as int) == key_end(s@, j as int),
        decreases s.len() - j,
    {
        j = j + 1;
    }
    j
}

fn cat_end_exec(s: &Vec<char>, i: usize) -> (r: usize)
    requires
        i <= s@.len(),
    ensures
        r as int == cat_end(s@, i as int),
        i <= r <= s@.len(),
{
    let mut j = i;
    while j < s.len() && s[j] != ']'
        invariant
            i <= j <= s@.len(),
            cat_end(s@, i as int) == cat_end(s@, j as int),
        decreases s.len() - j,
    {
        j = j + 1;
    }
    j
}

fn content_end_exec(s: &Vec<char>, i: usize, close: &Vec<char>) -> (r: Option<usize>)
    requires
        i <= s@.len(),
        close@ == close_pat(),
    ensures
        match r {
            Some(j) => content_end(s@, i as int) == Some(j as int) && i <= j && j + 7 <= s@.len(),
            None => content_end(s@, i as int) is None,
        },
{
    let mut j = i;
    while j < s.len()
        invariant
            i <= j <= s@.len(),
            close@ == close_pat(),
            content_end(s@, i as int) == content_end(s@, j as int),
        decreases s.len() - j,
    {
        if matches_at_exec(s, j, s.len(), close) {
            return Some(j);
        }
        if s[j] == '\n' {
            return None;
        }
        j = j + 1;
    }
    None
}

fn block_at_exec(s: &Vec<char>, i: usize, open: &Vec<char>, close: &Vec<char>) -> (r: Option<(NoteBlock, usize)>)
    requires
        i < s@.len(),
        open@ == open_pat(),
        close@ == close_pat(),
    ensures
        match r {
            Some((b, e)) => block_at(s@, i as int) == Some((b@, e as int)) && i < e <= s@.len(),
            None => block_at(s@, i as int) is None,
        },
{
    if !matches_at_exec(s, i, s.len(), open) {
        return None;
    }
    let k0 = i + 6;
    let ke = key_end_exec(s, k0);
    if ke <= k0 || ke >= s.len() {
        return None;
    }
    let (cat, cs): (Option<String>, usize) = if s[ke] == ']' {
        (None, ke + 1)
    } else {
        let ce = cat_end_exec(s, ke + 1);
        if ce <= ke + 1 || ce >= s.len() {
            return None;
        }
        let c = sub_vec(s, ke + 1, ce);
        (Some(chars_to_string(&c)), ce + 1)
    };
    match content_end_exec(s, cs, close) {
        Some(j) => {
            let key = sub_vec(s, k0, ke);
            let content = sub_vec(s, cs, j);
            let b = NoteBlock { key: chars_to_string(&key), category: cat, content: chars_to_string(&content) };
            Some((b, j + 7))
        },
        None => None,
    }
}

/// The note blocks of a response, in order.
fn find_note_blocks(text: &str) -> (r: Vec<NoteBlock>)
    ensures
        block_views(r@) == note_blocks(text@),
{
    let s = str_chars(text);
    let open = vec!['[', 'N', 'O', 'T', 'E', ':'];
    let close = vec!['[', '/', 'N', 'O', 'T', 'E', ']'];
    assert(open@ =~= open_pat());
    assert(close@ =~= close_pat());
    let mut out: Vec<NoteBlock> = Vec::new();
    let mut i: usize = 0;
    assert(block_views(out@) =~= Seq::<BlockView>::empty());
    while i < s.len()
        invariant
            i <= s@.len(),
            s@ == text@,
            open@ == open_pat(),
            close@ == close_pat(),
            block_views(out@) + blocks_from(s@, i as int) == blocks_from(s@, 0),
        decreases s.len() - i,
    {
        match block_at_exec(&s, i, &open, &close) {
            Some((b, e)) => {
                let ghost before = block_views(out@);
                out.push(b);
                assert(block_views(out@) =~= before.push(b@));
                assert(before + blocks_from(s@, i as int) =~= block_views(out@) + blocks_from(s@, e as int));
                i = e;
            },
            None => {
                i = i + 1;
            },
        }
    }
    assert(block_views(out@) + blocks_from(s@, i as int) =~= block_views(out@));
    out
}

/// A block is saved when its key and its trimmed content are not empty.
pub open spec fn accepted(b: BlockView) -> bool {
    b.0.len() > 0 && trim(b.2).len() > 0
}

/// The notes after saving each accepted block at time `now`, in order.
pub open spec fn apply_blocks(notes: Seq<NoteView>, blocks: Seq<BlockView>, now: Seq<char>) -> Seq<NoteView>
    decreases blocks.len(),
{
    if blocks.len() == 0 {
        notes
    } else {
        let prev = apply_blocks(notes, blocks.drop_last(), now);
        let b = blocks.last();
        if accepted(b) {
            saved_view(prev, b.0, trim(b.2), b.1, now)
        } else {
            prev
        }
    }
}

/// Number of accepted blocks.
pub open spec fn accepted_count(blocks: Seq<BlockView>) -> nat
    decreases blocks.len(),
{
    if blocks.len() == 0 {
        0
    } else {
        accepted_count(blocks.drop_last()) + (if accepted(blocks.last()) {
            1nat
        } else {
            0nat
        })
    }
}

proof fn lemma_accepted_count_le(blocks: Seq<BlockView>)
    ensures
        accepted_count(blocks) <= blocks.len(),
    decreases blocks.len(),
{
    if blocks.len() > 0 {
        lemma_accepted_count_le(blocks.drop_last());
    }
}

/// Manages the structured notes of a session.
pub struct NotesManager;

impl NotesManager {
    /// Save a note to the session (create or update by key); never fails.
    pub fn save_note(session: &mut Session, key: String, content: String, category: Option<String>) -> (r: Result<(), String>)
        ensures
            r is Ok,
            exists|now: String| #![trigger now@] now@.len() > 0 && final(session).notes@ == saved_notes(old(session).notes@, key, content, category, now),
            final(session).messages == old(session).messages,
    {
        session.save_note(key, content, category);
        Ok(())
    }

    /// All notes of the session, in order.
    pub fn load_notes(session: &Session) -> (v: Vec<Note>)
        ensures
            plain_notes(v@) == note_views(session.notes@),
    {
        let mut v: Vec<Note> = Vec::new();
        let mut i: usize = 0;
        while i < session.notes.len()
            invariant
                i <= session.notes.len(),
                plain_notes(v@) == note_views(session.notes@).take(i as int),
            decreases session.notes.len() - i,
        {
            let ghost before = plain_notes(v@);
            let n = to_note(&session.notes[i]);
            v.push(n);
            assert(plain_notes(v@) =~= before.push(n@));
            assert(note_views(session.notes@).take(i + 1) =~= note_views(session.notes@).take(i as int).push(n@));
            i = i + 1;
        }
        assert(note_views(session.notes@).take(i as int) =~= note_views(session.notes@));
        v
    }

    /// Delete the notes with the given key; `Ok(true)` when one was removed.
    pub fn delete_note(session: &mut Session, key: &str) -> (r: Result<bool, String>)
        ensures
            r == Ok::<bool, String>(note_index(old(session).notes@, key@, 0) is Some),
            final(session).notes@ == notes_without(old(session).notes@, key@),
            final(session).messages == old(session).messages,
    {
        Ok(session.delete_note(key))
    }

    /// The notes as context for the system prompt (`None` without notes).
    pub fn format_notes_context(session: &Session) -> (r: Option<String>)
        ensures
            match r {
                Some(s) => notes_context(session.notes@) == Some(s@),
                None => notes_context(session.notes@) is None,
            },
    {
        session.format_notes_context()
    }

    /// The notes of the given category, in order.
    pub fn notes_by_category(session: &Session, category: &str) -> (v: Vec<Note>)
        ensures
            plain_notes(v@) == note_views(notes_in(session.notes@, category@)),
    {
        let found = session.notes_by_category(category);
        let ghost want = notes_in(session.notes@, category@);
        let mut v: Vec<Note> = Vec::new();
        let mut i: usize = 0;
        while i < found.len()
            invariant
                i <= found.len(),
                found@.len() == want.len(),
                forall|j: int| 0 <= j < found@.len() ==> *found@[j] == want[j],
                plain_notes(v@) == note_views(want).take(i as int),
            decreases found.len() - i,
        {
            let ghost before = plain_notes(v@);
            let n = to_note(found[i]);
            v.push(n);
            assert(plain_notes(v@) =~= before.push(n@));
            assert(note_views(want).take(i + 1) =~= note_views(want).take(i as int).push(n@));
            i = i + 1;
        }
        assert(note_views(want).take(i as int) =~= note_views(want));
        v
    }

    /// Save the accepted blocks (non-empty key and trimmed content) at time
    /// `now`, in order; returns how many were saved.
    pub fn apply_note_blocks(session: &mut Session, blocks: &Vec<NoteBlock>, now: &String) -> (n: usize)
        ensures
            note_views(final(session).notes@) == apply_blocks(note_views(old(session).notes@), block_views(blocks@), now@),
            n as nat == accepted_count(block_views(blocks@)),
            final(session).messages == old(session).messages,
    {
        let ghost start = note_views(session.notes@);
        let ghost bv = block_views(blocks@);
        let mut count: usize = 0;
        let mut i: usize = 0;
        assert(bv.take(0) =~= Seq::<BlockView>::empty());
        while i < blocks.len()
            invariant
                i <= blocks.len(),
                bv == block_views(blocks@),
                note_views(session.notes@) == apply_blocks(start, bv.take(i as int), now@),
                count as nat == accepted_count(bv.take(i as int)),
                count <= i,
                session.messages == old(session).messages,
            decreases blocks.len() - i,
        {
            assert(bv.take(i + 1).drop_last() =~= bv.take(i as int));
            assert(bv.take(i + 1).last() == blocks@[i as int]@);
            let b = &blocks[i];
            let content = chars_to_string(&trim_chars(&str_chars(b.content.as_str())));
            if !b.key.as_str().is_empty() && !content.as_str().is_empty() {
                let ghost before = session.notes@;
                let key = b.key.clone();
                let category = match &b.category {
                    Some(c) => Some(c.clone()),
                    None => None,
                };
                let stamp = now.clone();
                proof {
                    lemma_saved_view(before, key, content, category, stamp);
                }
                session.save_note_at(key, content, category, stamp);
                count = count + 1;
            }
            i = i + 1;
        }
        assert(bv.take(i as int) =~= bv);
        count
    }

    /// Extract the `[NOTE:key:category]content[/NOTE]` and
    /// `[NOTE:key]content[/NOTE]` blocks of a response and save them (see
    /// `apply_note_blocks`); returns how many notes were saved.
    pub fn extract_notes_from_response(session: &mut Session, response: &str) -> (n: usize)
        ensures
            exists|now: String| #![trigger now@] now@.len() > 0 && note_views(final(session).notes@) == apply_blocks(
                note_views(old(session).notes@),
                note_blocks(response@),
                now@,
            ),
            n as nat == accepted_count(note_blocks(response@)),
            final(session).messages == old(session).messages,
    {
        let blocks = find_note_blocks(response);
        let now = now_rfc3339();
        let n = Self::apply_note_blocks(session, &blocks, &now);
        assert(now@.len() > 0);
        n
    }

    /// Compact the session's notes when there are too many; returns whether
    /// compaction happened.
    pub fn compact_if_needed(session: &mut Session) -> (r: bool)
        ensures
            r == (old(session).notes@.len() > crate::session::MAX_NOTES_BEFORE_COMPACTION),
            !r ==> final(session).notes == old(session).notes,
            r ==> crate::session::compacted_notes(old(session).notes@, final(session).notes@),
            final(session).messages == old(session).messages,
    {
        session.compact_notes()
    }
}

} // verus!
