//! Telegram message formatting: Markdown to MarkdownV2, Markdown to HTML,
//! and plain-text stripping.
//!
//! Every function works on the character sequence of its input; positions
//! in the specifications are character positions (all markers are ASCII, so
//! they coincide with the byte positions a byte-oriented scanner would use).

use vstd::prelude::*;
use crate::text::{push_str, find_char, find_in, find_char_exec, lemma_find_char_props, str_chars, chars_to_string, is_ascii_alnum, lemma_find_in_props, matches_at, find_in_exec, matches_at_exec, push_all};

verus! {

// ───────────────────────── shared specifications ─────────────────────────

/// Concatenation that fails when either side failed.
pub open spec fn ocat(a: Option<Seq<char>>, b: Option<Seq<char>>) -> Option<Seq<char>> {
    match (a, b) {
        (Some(x), Some(y)) => Some(x + y),
        _ => None,
    }
}

pub proof fn lemma_ocat_assoc(a: Seq<char>, b: Seq<char>, x: Option<Seq<char>>)
    ensures
        ocat(Some(a), ocat(Some(b), x)) == ocat(Some(a + b), x),
{
    if let Some(y) = x {
        assert(a + (b + y) =~= (a + b) + y);
    }
}

/// `pat` starts at `lo` and fits before `hi`.
pub open spec fn starts(s: Seq<char>, lo: int, hi: int, pat: Seq<char>) -> bool {
    lo + pat.len() <= hi && matches_at(s, lo, pat)
}

/// Every character of `s[a..b]` is an ASCII letter or digit.
pub open spec fn all_alnum(s: Seq<char>, a: int, b: int) -> bool {
    forall|k: int| a <= k < b ==> is_ascii_alnum(#[trigger] s[k])
}

pub open spec fn bold_pat() -> Seq<char> {
    seq!['*', '*']
}

pub open spec fn fence_pat() -> Seq<char> {
    seq!['`', '`', '`']
}

pub open spec fn link_mid_pat() -> Seq<char> {
    seq![']', '(']
}

pub open spec fn header_pat() -> Seq<char> {
    seq!['#', '#', ' ']
}

pub open spec fn bullet_pat() -> Seq<char> {
    seq!['-', ' ']
}

/// First `*` at or after `i` (before `hi`) that is neither preceded (within
/// `s[i..]`) nor followed (within `s[..hi]`) by another `*`.
pub open spec fn italic_close(s: Seq<char>, start: int, i: int, hi: int) -> Option<int>
    decreases hi - i,
{
    if i < start || i >= hi || hi > s.len() {
        None
    } else if s[i] == '*' && !(i > start && s[i - 1] == '*') && !(i + 1 < hi && s[i + 1] == '*') {
        Some(i)
    } else {
        italic_close(s, start, i + 1, hi)
    }
}

pub proof fn lemma_italic_close_range(s: Seq<char>, start: int, i: int, hi: int)
    requires
        start <= i,
        0 <= start,
        hi <= s.len(),
    ensures
        italic_close(s, start, i, hi) matches Some(j) ==> i <= j < hi,
    decreases hi - i,
{
    if i < hi && !(s[i] == '*' && !(i > start && s[i - 1] == '*') && !(i + 1 < hi && s[i + 1]
        == '*')) {
        lemma_italic_close_range(s, start, i + 1, hi);
    }
}

fn italic_close_exec(s: &Vec<char>, start: usize, hi: usize) -> (r: Option<usize>)
    requires
        start <= hi <= s.len(),
    ensures
        r matches Some(j) ==> italic_close(s@, start as int, start as int, hi as int) == Some(
            j as int,
        ) && start <= j < hi,
        r is None ==> italic_close(s@, start as int, start as int, hi as int) is None,
{
    let mut i = start;
    while i < hi
        invariant
            start <= i <= hi <= s.len(),
            italic_close(s@, start as int, start as int, hi as int) == italic_close(
                s@,
                start as int,
                i as int,
                hi as int,
            ),
        decreases hi - i,
    {
        if s[i] == '*' && !(i > start && s[i - 1] == '*') && !(i + 1 < hi && s[i + 1] == '*') {
            return Some(i);
        }
        i = i + 1;
    }
    None
}

fn starts_exec(s: &Vec<char>, lo: usize, hi: usize, pat: &Vec<char>) -> (r: bool)
    requires
        hi <= s.len(),
    ensures
        r == starts(s@, lo as int, hi as int, pat@),
{
    matches_at_exec(s, lo, hi, pat)
}

fn all_alnum_exec(s: &Vec<char>, a: usize, b: usize) -> (r: bool)
    requires
        a <= b <= s.len(),
    ensures
        r == all_alnum(s@, a as int, b as int),
{
    let mut k = a;
    while k < b
        invariant
            a <= k <= b <= s.len(),
            forall|m: int| a <= m < k ==> is_ascii_alnum(#[trigger] s@[m]),
        decreases b - k,
    {
        let c = s[k];
        if !(('a' <= c && c <= 'z') || ('A' <= c && c <= 'Z') || ('0' <= c && c <= '9')) {
            return false;
        }
        k = k + 1;
    }
    true
}

// ───────────────────────── MarkdownV2 ─────────────────────────

/// Characters that MarkdownV2 requires to be escaped outside code.
pub open spec fn is_special(c: char) -> bool {
    c == '_' || c == '*' || c == '[' || c == ']' || c == '(' || c == ')' || c == '~' || c == '`'
        || c == '>' || c == '#' || c == '+' || c == '-' || c == '=' || c == '|' || c == '{' || c
        == '}' || c == '.' || c == '!'
}

/// A character as it appears in MarkdownV2 text (escaped when special).
pub open spec fn esc(c: char) -> Seq<char> {
    if is_special(c) {
        seq!['\\', c]
    } else {
        seq![c]
    }
}

/// `s[a..b]` with every special character escaped.
pub open spec fn esc_all(s: Seq<char>, a: int, b: int) -> Seq<char>
    decreases b - a,
{
    if b <= a {
        Seq::empty()
    } else {
        esc_all(s, a, b - 1) + esc(s[b - 1])
    }
}

/// `s[a..b]` with `)` and `\` escaped (link targets).
pub open spec fn esc_url(s: Seq<char>, a: int, b: int) -> Seq<char>
    decreases b - a,
{
    if b <= a {
        Seq::empty()
    } else {
        esc_url(s, a, b - 1) + (if s[b - 1] == ')' || s[b - 1] == '\\' {
            seq!['\\', s[b - 1]]
        } else {
            seq![s[b - 1]]
        })
    }
}

/// End of a link target starting at `i`: the first `)` not closing a `(`
/// opened inside the target.
pub open spec fn url_end(s: Seq<char>, i: int, hi: int, depth: nat) -> Option<int>
    decreases hi - i,
{
    if i < 0 || i >= hi || hi > s.len() {
        None
    } else if s[i] == '(' {
        url_end(s, i + 1, hi, depth + 1)
    } else if s[i] == ')' && depth == 0 {
        Some(i)
    } else if s[i] == ')' {
        url_end(s, i + 1, hi, (depth - 1) as nat)
    } else {
        url_end(s, i + 1, hi, depth)
    }
}

pub proof fn lemma_url_end_range(s: Seq<char>, i: int, hi: int, depth: nat)
    requires
        0 <= i,
        hi <= s.len(),
    ensures
        url_end(s, i, hi, depth) matches Some(j) ==> i <= j < hi,
    decreases hi - i,
{
    if 0 <= i < hi {
        if s[i] == '(' {
            lemma_url_end_range(s, i + 1, hi, depth + 1);
        } else if s[i] == ')' && depth == 0 {
        } else if s[i] == ')' {
            lemma_url_end_range(s, i + 1, hi, (depth - 1) as nat);
        } else {
            lemma_url_end_range(s, i + 1, hi, depth);
        }
    }
}

/// A `[text](url)` link at `lo`: its MarkdownV2 rendering and the position
/// after it; `None` when the link is malformed.
pub open spec fn link_v2(s: Seq<char>, lo: int, hi: int) -> Option<(Seq<char>, int)> {
    match find_in(s, link_mid_pat(), lo, hi) {
        None => None,
        Some(ct) => match url_end(s, ct + 2, hi, 0) {
            None => None,
            Some(ue) => if ct <= lo + 1 || ue == ct + 2 {
                None
            } else {
                Some(
                    (
                        seq!['['] + esc_all(s, lo + 1, ct) + seq![']', '('] + esc_url(s, ct + 2, ue)
                            + seq![')'],
                        ue + 1,
                    ),
                )
            },
        },
    }
}

/// Inline conversion of `s[lo..hi]`: `**b**` to `*b*`, `*i*` to `_i_`, links
/// re-escaped, every other special character escaped.
pub open spec fn inline_v2(s: Seq<char>, lo: int, hi: int) -> Option<Seq<char>>
    decreases hi - lo,
{
    if lo < 0 || hi > s.len() || lo >= hi {
        Some(Seq::empty())
    } else if starts(s, lo, hi, bold_pat()) && find_in(s, bold_pat(), lo + 2, hi) is Some {
        let c = find_in(s, bold_pat(), lo + 2, hi)->0;
        if c + 2 <= hi && lo + 2 <= c {
            match inline_v2(s, lo + 2, c) {
                None => None,
                Some(inner) => ocat(Some(seq!['*'] + inner + seq!['*']), inline_v2(s, c + 2, hi)),
            }
        } else {
            None
        }
    } else if s[lo] == '*' && italic_close(s, lo + 1, lo + 1, hi) is Some {
        let c = italic_close(s, lo + 1, lo + 1, hi)->0;
        if lo + 1 <= c < hi {
            match inline_v2(s, lo + 1, c) {
                None => None,
                Some(inner) => ocat(Some(seq!['_'] + inner + seq!['_']), inline_v2(s, c + 1, hi)),
            }
        } else {
            None
        }
    } else if s[lo] == '[' && find_in(s, link_mid_pat(), lo, hi) is Some && find_in(
        s,
        link_mid_pat(),
        lo,
        hi,
    )->0 > lo + 1 {
        match link_v2(s, lo, hi) {
            None => None,
            Some((r, e)) => if lo < e <= hi {
                ocat(Some(r), inline_v2(s, e, hi))
            } else {
                None
            },
        }
    } else {
        ocat(Some(esc(s[lo])), inline_v2(s, lo + 1, hi))
    }
}

/// One line of text: `## h` becomes `*h*`, `- x` becomes `• x`.
pub open spec fn line_v2(s: Seq<char>, lo: int, hi: int) -> Option<Seq<char>> {
    if starts(s, lo, hi, header_pat()) {
        match inline_v2(s, lo + 3, hi) {
            None => None,
            Some(x) => Some(seq!['*'] + x + seq!['*']),
        }
    } else if starts(s, lo, hi, bullet_pat()) {
        match inline_v2(s, lo + 2, hi) {
            None => None,
            Some(x) => Some(seq!['\u{2022}', ' '] + x),
        }
    } else {
        inline_v2(s, lo, hi)
    }
}

/// A text segment converted line by line, lines joined with `\n`.
pub open spec fn text_v2(s: Seq<char>, lo: int, hi: int) -> Option<Seq<char>>
    decreases hi - lo,
{
    match find_char(s, '\n', lo, hi) {
        None => line_v2(s, lo, hi),
        Some(p) => if lo <= p < hi {
            match line_v2(s, lo, p) {
                None => None,
                Some(x) => ocat(Some(x + seq!['\n']), text_v2(s, p + 1, hi)),
            }
        } else {
            None
        },
    }
}

/// Pieces of the input: plain text, inline code and fenced code, each a
/// character range of the input.
#[derive(Clone, Copy, PartialEq, Eq, Debug)]
pub enum Segment {
    Text(usize, usize),
    CodeInline(usize, usize),
    CodeBlock(usize, usize),
}

pub open spec fn seg_valid(seg: Segment, n: int) -> bool {
    match seg {
        Segment::Text(a, b) => a <= b <= n,
        Segment::CodeInline(a, b) => a <= b <= n,
        Segment::CodeBlock(a, b) => a <= b <= n,
    }
}

/// Number of consecutive backticks starting at `i`.
pub open spec fn tick_run(s: Seq<char>, i: int) -> nat
    decreases s.len() - i,
{
    if 0 <= i < s.len() && s[i] == '`' {
        1 + tick_run(s, i + 1)
    } else {
        0
    }
}

pub proof fn lemma_tick_run_bound(s: Seq<char>, i: int)
    requires
        0 <= i <= s.len(),
    ensures
        i + tick_run(s, i) <= s.len(),
    decreases s.len() - i,
{
    if i < s.len() && s[i] == '`' {
        lemma_tick_run_bound(s, i + 1);
    }
}

/// The code block language tag: the first line of a fenced block is a
/// language name when it is non-empty and purely ASCII alphanumeric.
pub open spec fn has_lang(s: Seq<char>, a: int, b: int) -> bool {
    match find_char(s, '\n', a, b) {
        None => false,
        Some(nl) => nl > a && all_alnum(s, a, nl),
    }
}

/// The segment scanner, from scan position `i` with pending text starting
/// at `ts` and segments `acc` found so far; `None` when the input cannot be
/// represented (unterminated fence, multi-line inline code, bad language tag).
pub open spec fn split_from(s: Seq<char>, ts: int, i: int, acc: Seq<Segment>) -> Option<
    Seq<Segment>,
>
    decreases s.len() - i,
{
    if i < 0 || i >= s.len() {
        Some(
            if 0 <= ts < s.len() {
                acc.push(Segment::Text(ts as usize, s.len() as usize))
            } else {
                acc
            },
        )
    } else if s[i] != '`' {
        split_from(s, ts, i + 1, acc)
    } else {
        let k = tick_run(s, i);
        let acc1 = if ts < i {
            acc.push(Segment::Text(ts as usize, i as usize))
        } else {
            acc
        };
        if k == 1 {
            match find_char(s, '`', i + 1, s.len() as int) {
                None => split_from(s, ts, i + 1, acc1),
                Some(e) => if e <= i || e >= s.len() {
                    None
                } else if find_char(s, '\n', i + 1, e) is Some {
                    None
                } else {
                    split_from(s, e + 1, e + 1, acc1.push(Segment::CodeInline((i + 1) as usize, e as usize)))
                },
            }
        } else if k == 3 {
            match find_in(s, fence_pat(), i + 3, s.len() as int) {
                None => None,
                Some(e) => if e < i + 3 || e + 3 > s.len() {
                    None
                } else if find_char(s, '\n', i + 3, e) is Some && !has_lang(s, i + 3, e) && find_char(
                    s,
                    '\n',
                    i + 3,
                    e,
                )->0 > i + 3 {
                    None
                } else {
                    split_from(s, e + 3, e + 3, acc1.push(Segment::CodeBlock((i + 3) as usize, e as usize)))
                },
            }
        } else if k == 0 || i + k > s.len() {
            None
        } else {
            split_from(s, ts, i + k, acc)
        }
    }
}

/// A fenced block rendered for MarkdownV2.
pub open spec fn block_v2(s: Seq<char>, a: int, b: int) -> Option<Seq<char>> {
    if find_in(s, fence_pat(), a, b) is Some {
        None
    } else if find_char(s, '\n', a, b) is Some {
        let nl = find_char(s, '\n', a, b)->0;
        let lang = if has_lang(s, a, b) {
            s.subrange(a, nl)
        } else {
            Seq::empty()
        };
        let body = if has_lang(s, a, b) {
            s.subrange(nl + 1, b)
        } else {
            s.subrange(a, b)
        };
        let end_nl = if body.len() > 0 && body.last() == '\n' {
            Seq::empty()
        } else {
            seq!['\n']
        };
        Some(fence_pat() + lang + seq!['\n'] + body + end_nl + fence_pat())
    } else {
        Some(seq!['`'] + s.subrange(a, b) + seq!['`'])
    }
}

pub open spec fn render_seg(s: Seq<char>, seg: Segment) -> Option<Seq<char>> {
    match seg {
        Segment::Text(a, b) => text_v2(s, a as int, b as int),
        Segment::CodeInline(a, b) => Some(seq!['`'] + s.subrange(a as int, b as int) + seq!['`']),
        Segment::CodeBlock(a, b) => block_v2(s, a as int, b as int),
    }
}

pub open spec fn render_segs(s: Seq<char>, segs: Seq<Segment>) -> Option<Seq<char>>
    decreases segs.len(),
{
    if segs.len() == 0 {
        Some(Seq::empty())
    } else {
        ocat(render_segs(s, segs.drop_last()), render_seg(s, segs.last()))
    }
}

/// Markdown converted to Telegram MarkdownV2, or `None` when the input
/// cannot be represented (callers then fall back to plain text).
pub open spec fn markdown_v2(s: Seq<char>) -> Option<Seq<char>> {
    match split_from(s, 0, 0, Seq::empty()) {
        None => None,
        Some(segs) => render_segs(s, segs),
    }
}

fn push_escaped(out: &mut Vec<char>, c: char)
    ensures
        final(out)@ == old(out)@ + esc(c),
{
    if c == '_' || c == '*' || c == '[' || c == ']' || c == '(' || c == ')' || c == '~' || c
        == '`' || c == '>' || c == '#' || c == '+' || c == '-' || c == '=' || c == '|' || c
        == '{' || c == '}' || c == '.' || c == '!' {
        out.push('\\');
    }
    out.push(c);
    proof {
        assert(final(out)@ =~= old(out)@ + esc(c));
    }
}

fn escape_non_code(s: &Vec<char>, a: usize, b: usize, out: &mut Vec<char>)
    requires
        a <= b <= s.len(),
    ensures
        final(out)@ == old(out)@ + esc_all(s@, a as int, b as int),
{
    let ghost start = out@;
    let mut k = a;
    while k < b
        invariant
            a <= k <= b <= s.len(),
            out@ == start + esc_all(s@, a as int, k as int),
        decreases b - k,
    {
        push_escaped(out, s[k]);
        proof {
            assert(esc_all(s@, a as int, k + 1) == esc_all(s@, a as int, k as int) + esc(
                s@[k as int],
            ));
            assert(start + esc_all(s@, a as int, k + 1) =~= start + esc_all(s@, a as int, k as int)
                + esc(s@[k as int]));
        }
        k = k + 1;
    }
}

fn escape_link_url(s: &Vec<char>, a: usize, b: usize, out: &mut Vec<char>)
    requires
        a <= b <= s.len(),
    ensures
        final(out)@ == old(out)@ + esc_url(s@, a as int, b as int),
{
    let ghost start = out@;
    let mut k = a;
    while k < b
        invariant
            a <= k <= b <= s.len(),
            out@ == start + esc_url(s@, a as int, k as int),
        decreases b - k,
    {
        let c = s[k];
        let ghost before = out@;
        if c == ')' || c == '\\' {
            out.push('\\');
        }
        out.push(c);
        proof {
            let piece = if c == ')' || c == '\\' {
                seq!['\\', c]
            } else {
                seq![c]
            };
            assert(out@ =~= before + piece);
            assert(esc_url(s@, a as int, k + 1) == esc_url(s@, a as int, k as int) + piece);
            assert(start + esc_url(s@, a as int, k + 1) =~= start + esc_url(s@, a as int, k as int)
                + piece);
        }
        k = k + 1;
    }
}

fn find_link_url_end(s: &Vec<char>, start: usize, hi: usize) -> (r: Option<usize>)
    requires
        start <= hi <= s.len(),
    ensures
        r matches Some(j) ==> url_end(s@, start as int, hi as int, 0) == Some(j as int) && start
            <= j < hi,
        r is None ==> url_end(s@, start as int, hi as int, 0) is None,
{
    let mut depth: usize = 0;
    let mut i = start;
    proof {
        lemma_url_end_range(s@, start as int, hi as int, 0);
    }
    while i < hi
        invariant
            start <= i <= hi <= s.len(),
            depth <= i - start,
            url_end(s@, start as int, hi as int, 0) == url_end(s@, i as int, hi as int, depth as nat),
        decreases hi - i,
    {
        let c = s[i];
        if c == '(' {
            depth = depth + 1;
        } else if c == ')' && depth == 0 {
            return Some(i);
        } else if c == ')' {
            depth = depth - 1;
        }
        i = i + 1;
    }
    None
}

fn convert_link(s: &Vec<char>, lo: usize, hi: usize) -> (r: Option<(Vec<char>, usize)>)
    requires
        lo < hi <= s.len(),
    ensures
        r matches Some((v, e)) ==> link_v2(s@, lo as int, hi as int) == Some((v@, e as int)) && lo
            < e <= hi,
        r is None ==> link_v2(s@, lo as int, hi as int) is None,
{
    let mid = vec![']', '('];
    let ct = match find_in_exec(s, &mid, lo, hi) {
        None => return None,
        Some(ct) => ct,
    };
    proof {
        lemma_find_in_props(s@, link_mid_pat(), lo as int, hi as int);
    }
    let ue = match find_link_url_end(s, ct + 2, hi) {
        None => return None,
        Some(ue) => ue,
    };
    if ct <= lo + 1 || ue == ct + 2 {
        return None;
    }
    let mut out: Vec<char> = Vec::new();
    out.push('[');
    escape_non_code(s, lo + 1, ct, &mut out);
    out.push(']');
    out.push('(');
    escape_link_url(s, ct + 2, ue, &mut out);
    out.push(')');
    proof {
        assert(out@ =~= seq!['['] + esc_all(s@, lo + 1, ct as int) + seq![']', '('] + esc_url(
            s@,
            ct + 2,
            ue as int,
        ) + seq![')']);
    }
    Some((out, ue + 1))
}

fn append_vec(out: &mut Vec<char>, v: &Vec<char>)
    ensures
        final(out)@ == old(out)@ + v@,
{
    push_all(out, v, 0, v.len());
    proof {
        assert(v@.subrange(0, v@.len() as int) =~= v@);
    }
}

fn convert_inline(s: &Vec<char>, lo: usize, hi: usize) -> (r: Option<Vec<char>>)
    requires
        lo <= hi <= s.len(),
    ensures
        r matches Some(v) ==> inline_v2(s@, lo as int, hi as int) == Some(v@),
        r is None ==> inline_v2(s@, lo as int, hi as int) is None,
    decreases hi - lo,
{
    let bold = vec!['*', '*'];
    let mid = vec![']', '('];
    let mut out: Vec<char> = Vec::new();
    let mut idx = lo;
    proof {
        assert(ocat(Some(Seq::<char>::empty()), inline_v2(s@, lo as int, hi as int)) == inline_v2(
            s@,
            lo as int,
            hi as int,
        )) by {
            if let Some(y) = inline_v2(s@, lo as int, hi as int) {
                assert(Seq::<char>::empty() + y =~= y);
            }
        }
    }
    while idx < hi
        invariant
            lo <= idx <= hi <= s.len(),
            bold@ == bold_pat(),
            mid@ == link_mid_pat(),
            inline_v2(s@, lo as int, hi as int) == ocat(Some(out@), inline_v2(s@, idx as int, hi as int)),
        decreases hi - idx,
    {
        if starts_exec(s, idx, hi, &bold) {
            if let Some(c) = find_in_exec(s, &bold, idx + 2, hi) {
                proof {
                    lemma_find_in_props(s@, bold_pat(), idx + 2, hi as int);
                }
                let inner = match convert_inline(s, idx + 2, c) {
                    None => return None,
                    Some(v) => v,
                };
                let ghost before = out@;
                let ghost piece = seq!['*'] + inner@ + seq!['*'];
                proof {
                    lemma_ocat_assoc(out@, piece, inline_v2(s@, c + 2, hi as int));
                }
                out.push('*');
                append_vec(&mut out, &inner);
                out.push('*');
                proof {
                    assert(out@ =~= before + piece);
                }
                idx = c + 2;
                continue;
            }
        }
        if s[idx] == '*' {
            if let Some(c) = italic_close_exec(s, idx + 1, hi) {
                let inner = match convert_inline(s, idx + 1, c) {
                    None => return None,
                    Some(v) => v,
                };
                let ghost before = out@;
                let ghost piece = seq!['_'] + inner@ + seq!['_'];
                proof {
                    lemma_ocat_assoc(out@, piece, inline_v2(s@, c + 1, hi as int));
                }
                out.push('_');
                append_vec(&mut out, &inner);
                out.push('_');
                proof {
                    assert(out@ =~= before + piece);
                }
                idx = c + 1;
                continue;
            }
        }
        if s[idx] == '[' {
            if let Some(ct) = find_in_exec(s, &mid, idx, hi) {
                if ct > idx + 1 {
                    let (rendered, e) = match convert_link(s, idx, hi) {
                        None => return None,
                        Some(p) => p,
                    };
                    let ghost before = out@;
                    proof {
                        lemma_ocat_assoc(out@, rendered@, inline_v2(s@, e as int, hi as int));
                    }
                    append_vec(&mut out, &rendered);
                    idx = e;
                    continue;
                }
            }
        }
        let ghost before = out@;
        proof {
            lemma_ocat_assoc(out@, esc(s@[idx as int]), inline_v2(s@, idx + 1, hi as int));
        }
        push_escaped(&mut out, s[idx]);
        idx = idx + 1;
    }
    proof {
        assert(out@ + Seq::<char>::empty() =~= out@);
    }
    Some(out)
}

fn convert_line(s: &Vec<char>, lo: usize, hi: usize) -> (r: Option<Vec<char>>)
    requires
        lo <= hi <= s.len(),
    ensures
        r matches Some(v) ==> line_v2(s@, lo as int, hi as int) == Some(v@),
        r is None ==> line_v2(s@, lo as int, hi as int) is None,
{
    let header = vec!['#', '#', ' '];
    let bullet = vec!['-', ' '];
    if starts_exec(s, lo, hi, &header) {
        match convert_inline(s, lo + 3, hi) {
            None => None,
            Some(x) => {
                let mut out: Vec<char> = Vec::new();
                out.push('*');
                append_vec(&mut out, &x);
                out.push('*');
                proof {
                    assert(out@ =~= seq!['*'] + x@ + seq!['*']);
                }
                Some(out)
            },
        }
    } else if starts_exec(s, lo, hi, &bullet) {
        match convert_inline(s, lo + 2, hi) {
            None => None,
            Some(x) => {
                let mut out: Vec<char> = Vec::new();
                out.push('\u{2022}');
                out.push(' ');
                append_vec(&mut out, &x);
                proof {
                    assert(out@ =~= seq!['\u{2022}', ' '] + x@);
                }
                Some(out)
            },
        }
    } else {
        convert_inline(s, lo, hi)
    }
}

fn convert_text_segment(s: &Vec<char>, lo: usize, hi: usize) -> (r: Option<Vec<char>>)
    requires
        lo <= hi <= s.len(),
    ensures
        r matches Some(v) ==> text_v2(s@, lo as int, hi as int) == Some(v@),
        r is None ==> text_v2(s@, lo as int, hi as int) is None,
{
    let mut out: Vec<char> = Vec::new();
    let mut i = lo;
    proof {
        if let Some(y) = text_v2(s@, lo as int, hi as int) {
            assert(Seq::<char>::empty() + y =~= y);
        }
    }
    loop
        invariant
            lo <= i <= hi <= s.len(),
            text_v2(s@, lo as int, hi as int) == ocat(Some(out@), text_v2(s@, i as int, hi as int)),
        decreases hi - i,
    {
        proof {
            lemma_find_char_props(s@, '\n', i as int, hi as int);
        }
        match find_char_exec(s, '\n', i, hi) {
            None => {
                match convert_line(s, i, hi) {
                    None => return None,
                    Some(x) => {
                        append_vec(&mut out, &x);
                        return Some(out);
                    },
                }
            },
            Some(p) => {
                match convert_line(s, i, p) {
                    None => return None,
                    Some(x) => {
                        let ghost before = out@;
                        proof {
                            lemma_ocat_assoc(out@, x@ + seq!['\n'], text_v2(s@, p + 1, hi as int));
                        }
                        append_vec(&mut out, &x);
                        out.push('\n');
                        proof {
                            assert(out@ =~= before + (x@ + seq!['\n']));
                        }
                        i = p + 1;
                    },
                }
            },
        }
    }
}

fn count_ticks(s: &Vec<char>, i: usize) -> (k: usize)
    requires
        i <= s.len(),
    ensures
        k == tick_run(s@, i as int),
        i + k <= s.len(),
{
    let mut m: usize = 0;
    while i + m < s.len() && s[i + m] == '`'
        invariant
            i + m <= s.len(),
            tick_run(s@, i as int) == m + tick_run(s@, (i + m) as int),
        decreases s.len() - (i + m),
    {
        m = m + 1;
    }
    m
}

/// Split the input into text, inline-code and fenced-code segments.
fn split_code_segments(s: &Vec<char>) -> (r: Option<Vec<Segment>>)
    ensures
        r matches Some(v) ==> split_from(s@, 0, 0, Seq::empty()) == Some(v@) && forall|k: int|
            0 <= k < v@.len() ==> seg_valid(#[trigger] v@[k], s@.len() as int),
        r is None ==> split_from(s@, 0, 0, Seq::empty()) is None,
{
    let fence = vec!['`', '`', '`'];
    let mut segs: Vec<Segment> = Vec::new();
    let mut ts: usize = 0;
    let mut i: usize = 0;
    let n = s.len();
    while i < n
        invariant
            n == s.len(),
            ts <= i <= n,
            fence@ == fence_pat(),
            split_from(s@, 0, 0, Seq::empty()) == split_from(s@, ts as int, i as int, segs@),
            forall|k: int| 0 <= k < segs@.len() ==> seg_valid(#[trigger] segs@[k], n as int),
        decreases n - i,
    {
        if s[i] != '`' {
            i = i + 1;
            continue;
        }
        let k = count_ticks(s, i);
        if k == 1 {
            if ts < i {
                segs.push(Segment::Text(ts, i));
            }
            proof {
                lemma_find_char_props(s@, '`', i + 1, n as int);
            }
            match find_char_exec(s, '`', i + 1, n) {
                None => {
                    i = i + 1;
                },
                Some(e) => {
                    proof {
                        lemma_find_char_props(s@, '\n', i + 1, e as int);
                    }
                    if find_char_exec(s, '\n', i + 1, e).is_some() {
                        return None;
                    }
                    segs.push(Segment::CodeInline(i + 1, e));
                    ts = e + 1;
                    i = e + 1;
                },
            }
        } else if k == 3 {
            if ts < i {
                segs.push(Segment::Text(ts, i));
            }
            proof {
                lemma_find_in_props(s@, fence_pat(), i + 3, n as int);
            }
            match find_in_exec(s, &fence, i + 3, n) {
                None => {
                    return None;
                },
                Some(e) => {
                    proof {
                        lemma_find_char_props(s@, '\n', i + 3, e as int);
                    }
                    match find_char_exec(s, '\n', i + 3, e) {
                        Some(nl) => {
                            if nl > i + 3 && !all_alnum_exec(s, i + 3, nl) {
                                return None;
                            }
                        },
                        None => {},
                    }
                    segs.push(Segment::CodeBlock(i + 3, e));
                    ts = e + 3;
                    i = e + 3;
                },
            }
        } else {
            i = i + k;
        }
    }
    if ts < n {
        segs.push(Segment::Text(ts, n));
    }
    Some(segs)
}

fn render_block(s: &Vec<char>, a: usize, b: usize) -> (r: Option<Vec<char>>)
    requires
        a <= b <= s.len(),
    ensures
        r matches Some(v) ==> block_v2(s@, a as int, b as int) == Some(v@),
        r is None ==> block_v2(s@, a as int, b as int) is None,
{
    let fence = vec!['`', '`', '`'];
    if find_in_exec(s, &fence, a, b).is_some() {
        return None;
    }
    let mut out: Vec<char> = Vec::new();
    proof {
        lemma_find_char_props(s@, '\n', a as int, b as int);
    }
    match find_char_exec(s, '\n', a, b) {
        None => {
            out.push('`');
            push_all(&mut out, s, a, b);
            out.push('`');
            proof {
                assert(out@ =~= seq!['`'] + s@.subrange(a as int, b as int) + seq!['`']);
            }
            Some(out)
        },
        Some(nl) => {
            let lang = nl > a && all_alnum_exec(s, a, nl);
            let body_start = if lang {
                nl + 1
            } else {
                a
            };
            out.push('`');
            out.push('`');
            out.push('`');
            if lang {
                push_all(&mut out, s, a, nl);
            }
            out.push('\n');
            push_all(&mut out, s, body_start, b);
            let ends_nl = body_start < b && s[b - 1] == '\n';
            if !ends_nl {
                out.push('\n');
            }
            out.push('`');
            out.push('`');
            out.push('`');
            proof {
                let lang_s = if lang {
                    s@.subrange(a as int, nl as int)
                } else {
                    Seq::empty()
                };
                let body = s@.subrange(body_start as int, b as int);
                let end_nl = if body.len() > 0 && body.last() == '\n' {
                    Seq::empty()
                } else {
                    seq!['\n']
                };
                assert(has_lang(s@, a as int, b as int) == lang);
                assert(out@ =~= fence_pat() + lang_s + seq!['\n'] + body + end_nl + fence_pat());
            }
            Some(out)
        },
    }
}

fn render_segment(s: &Vec<char>, seg: Segment) -> (r: Option<Vec<char>>)
    requires
        seg_valid(seg, s@.len() as int),
    ensures
        r matches Some(v) ==> render_seg(s@, seg) == Some(v@),
        r is None ==> render_seg(s@, seg) is None,
{
    match seg {
        Segment::Text(a, b) => convert_text_segment(s, a, b),
        Segment::CodeInline(a, b) => {
            let mut out: Vec<char> = Vec::new();
            out.push('`');
            push_all(&mut out, s, a, b);
            out.push('`');
            proof {
                assert(out@ =~= seq!['`'] + s@.subrange(a as int, b as int) + seq!['`']);
            }
            Some(out)
        },
        Segment::CodeBlock(a, b) => render_block(s, a, b),
    }
}

/// Convert standard Markdown to Telegram MarkdownV2; `None` when the text
/// cannot be represented and the caller should fall back to plain text.
pub fn markdown_to_telegram(input: &str) -> (r: Option<String>)
    ensures
        r matches Some(x) ==> markdown_v2(input@) == Some(x@),
        r is None ==> markdown_v2(input@) is None,
{
    let s = str_chars(input);
    let segs = match split_code_segments(&s) {
        None => return None,
        Some(v) => v,
    };
    match render_all(&s, &segs) {
        None => None,
        Some(out) => Some(chars_to_string(&out)),
    }
}

#[verifier::rlimit(40)]
fn render_all(s: &Vec<char>, segs: &Vec<Segment>) -> (r: Option<Vec<char>>)
    requires
        forall|m: int| 0 <= m < segs@.len() ==> seg_valid(#[trigger] segs@[m], s@.len() as int),
    ensures
        r matches Some(v) ==> render_segs(s@, segs@) == Some(v@),
        r is None ==> render_segs(s@, segs@) is None,
{
    let mut out: Vec<char> = Vec::new();
    let mut k: usize = 0;
    proof {
        assert(segs@.take(0) =~= Seq::<Segment>::empty());
    }
    while k < segs.len()
        invariant
            k <= segs.len(),
            forall|m: int| 0 <= m < segs@.len() ==> seg_valid(#[trigger] segs@[m], s@.len() as int),
            render_segs(s@, segs@.take(k as int)) == Some(out@),
        decreases segs.len() - k,
    {
        let seg = segs[k];
        assert(seg_valid(seg, s@.len() as int));
        match render_segment(s, seg) {
            None => {
                proof {
                    lemma_render_segs_none(s@, segs@, k as int);
                }
                return None;
            },
            Some(x) => {
                let ghost before = out@;
                append_vec(&mut out, &x);
                proof {
                    assert(segs@.take(k + 1).drop_last() =~= segs@.take(k as int));
                    assert(segs@.take(k + 1).last() == seg);
                    assert(render_segs(s@, segs@.take(k + 1)) == ocat(
                        render_segs(s@, segs@.take(k as int)),
                        render_seg(s@, seg),
                    ));
                }
            },
        }
        k = k + 1;
    }
    proof {
        assert(segs@.take(segs@.len() as int) =~= segs@);
    }
    Some(out)
}

proof fn lemma_render_segs_none(s: Seq<char>, segs: Seq<Segment>, k: int)
    requires
        0 <= k < segs.len(),
        render_seg(s, segs[k]) is None,
    ensures
        render_segs(s, segs) is None,
{
    lemma_render_segs_prefix_none(s, segs, k, segs.len() as int);
    assert(segs.take(segs.len() as int) =~= segs);
}

proof fn lemma_render_segs_prefix_none(s: Seq<char>, segs: Seq<Segment>, k: int, m: int)
    requires
        0 <= k < m <= segs.len(),
        render_seg(s, segs[k]) is None,
    ensures
        render_segs(s, segs.take(m)) is None,
    decreases m - k,
{
    assert(segs.take(m).drop_last() =~= segs.take(m - 1));
    assert(segs.take(m).last() == segs[m - 1]);
    if m > k + 1 {
        lemma_render_segs_prefix_none(s, segs, k, m - 1);
    }
}

// ───────────────────────── HTML ─────────────────────────

/// One character escaped for Telegram HTML.
pub open spec fn esc_html_char(c: char) -> Seq<char> {
    if c == '<' {
        "&lt;"@
    } else if c == '>' {
        "&gt;"@
    } else if c == '&' {
        "&amp;"@
    } else {
        seq![c]
    }
}

/// `s[a..b]` with `<`, `>` and `&` escaped.
pub open spec fn esc_html(s: Seq<char>, a: int, b: int) -> Seq<char>
    decreases b - a,
{
    if b <= a {
        Seq::empty()
    } else {
        esc_html(s, a, b - 1) + esc_html_char(s[b - 1])
    }
}

/// End of `s[lo..j]` once trailing newlines are removed.
pub open spec fn trim_nl_back(s: Seq<char>, lo: int, j: int) -> int
    decreases j - lo,
{
    if j > lo && s[j - 1] == '\n' {
        trim_nl_back(s, lo, j - 1)
    } else {
        j
    }
}

proof fn lemma_trim_nl_back(s: Seq<char>, lo: int, j: int)
    requires
        lo <= j,
    ensures
        lo <= trim_nl_back(s, lo, j) <= j,
    decreases j - lo,
{
    if j > lo && s[j - 1] == '\n' {
        lemma_trim_nl_back(s, lo, j - 1);
    }
}

/// A fenced block (content `s[a..e]`) rendered as `<pre><code>`, with the
/// language class when the first line is a language tag.
pub open spec fn fence_html(s: Seq<char>, a: int, e: int) -> Seq<char> {
    let l = has_lang(s, a, e);
    let nl = find_char(s, '\n', a, e)->0;
    let bstart = if l {
        nl + 1
    } else {
        a
    };
    let body = esc_html(s, bstart, trim_nl_back(s, bstart, e));
    if l {
        "<pre><code class=\"language-"@ + s.subrange(a, nl) + "\">"@ + body + "</code></pre>"@
    } else {
        "<pre><code>"@ + body + "</code></pre>"@
    }
}

/// Positions of `](` and of the closing `)` of a `[text](url)` link at `lo`
/// (the target ends at the first `)`).
pub open spec fn link_html_at(s: Seq<char>, lo: int, hi: int) -> Option<(int, int)> {
    match find_in(s, link_mid_pat(), lo, hi) {
        Some(ct) => if ct > lo + 1 {
            match find_char(s, ')', ct + 2, hi) {
                Some(ue) => if ct + 2 <= ue < hi {
                    Some((ct, ue))
                } else {
                    None
                },
                None => None,
            }
        } else {
            None
        },
        None => None,
    }
}

/// Markdown `s[lo..hi]` converted to Telegram HTML.
pub open spec fn html(s: Seq<char>, lo: int, hi: int) -> Seq<char>
    decreases hi - lo,
{
    if lo < 0 || hi > s.len() || lo >= hi {
        Seq::empty()
    } else if starts(s, lo, hi, fence_pat()) && find_in(s, fence_pat(), lo + 3, hi) is Some
        && lo + 3 <= find_in(s, fence_pat(), lo + 3, hi)->0 && find_in(s, fence_pat(), lo + 3, hi)->0 + 3 <= hi {
        let e = find_in(s, fence_pat(), lo + 3, hi)->0;
        fence_html(s, lo + 3, e) + html(s, e + 3, hi)
    } else if s[lo] == '`' && find_char(s, '`', lo + 1, hi) is Some && lo + 1 <= find_char(
        s,
        '`',
        lo + 1,
        hi,
    )->0 < hi {
        let e = find_char(s, '`', lo + 1, hi)->0;
        "<code>"@ + esc_html(s, lo + 1, e) + "</code>"@ + html(s, e + 1, hi)
    } else if starts(s, lo, hi, bold_pat()) && find_in(s, bold_pat(), lo + 2, hi) is Some && lo
        + 2 <= find_in(s, bold_pat(), lo + 2, hi)->0 && find_in(s, bold_pat(), lo + 2, hi)->0 + 2
        <= hi {
        let c = find_in(s, bold_pat(), lo + 2, hi)->0;
        "<b>"@ + html(s, lo + 2, c) + "</b>"@ + html(s, c + 2, hi)
    } else if s[lo] == '*' && !starts(s, lo, hi, bold_pat()) && italic_close(s, lo + 1, lo + 1, hi) is Some
        && lo + 1 <= italic_close(s, lo + 1, lo + 1, hi)->0 < hi {
        let c = italic_close(s, lo + 1, lo + 1, hi)->0;
        "<i>"@ + html(s, lo + 1, c) + "</i>"@ + html(s, c + 1, hi)
    } else if s[lo] == '[' && link_html_at(s, lo, hi) is Some {
        let p = link_html_at(s, lo, hi)->0;
        let ct = p.0;
        let ue = p.1;
        "<a href=\""@ + esc_html(s, ct + 2, ue) + "\">"@ + esc_html(s, lo + 1, ct) + "</a>"@
            + html(s, ue + 1, hi)
    } else if starts(s, lo, hi, header_pat()) {
        match find_char(s, '\n', lo + 3, hi) {
            Some(nl) => if lo + 3 <= nl < hi {
                "<b>"@ + esc_html(s, lo + 3, nl) + "</b>\n"@ + html(s, nl + 1, hi)
            } else {
                Seq::empty()
            },
            None => "<b>"@ + esc_html(s, lo + 3, hi) + "</b>"@,
        }
    } else if starts(s, lo, hi, bullet_pat()) && (lo == 0 || s[lo - 1] == '\n') {
        "\u{2022} "@ + html(s, lo + 2, hi)
    } else {
        esc_html_char(s[lo]) + html(s, lo + 1, hi)
    }
}

fn push_html_char(out: &mut Vec<char>, c: char)
    ensures
        final(out)@ == old(out)@ + esc_html_char(c),
{
    if c == '<' {
        push_str(out, "&lt;");
    } else if c == '>' {
        push_str(out, "&gt;");
    } else if c == '&' {
        push_str(out, "&amp;");
    } else {
        out.push(c);
        proof {
            assert(final(out)@ =~= old(out)@ + seq![c]);
        }
    }
}

fn escape_html(s: &Vec<char>, a: usize, b: usize, out: &mut Vec<char>)
    requires
        a <= b <= s.len(),
    ensures
        final(out)@ == old(out)@ + esc_html(s@, a as int, b as int),
{
    let ghost start = out@;
    let mut k = a;
    while k < b
        invariant
            a <= k <= b <= s.len(),
            out@ == start + esc_html(s@, a as int, k as int),
        decreases b - k,
    {
        push_html_char(out, s[k]);
        proof {
            assert(start + esc_html(s@, a as int, k + 1) =~= start + esc_html(s@, a as int, k as int)
                + esc_html_char(s@[k as int]));
        }
        k = k + 1;
    }
}

fn render_fence_html(s: &Vec<char>, a: usize, e: usize, out: &mut Vec<char>)
    requires
        a <= e <= s.len(),
    ensures
        final(out)@ == old(out)@ + fence_html(s@, a as int, e as int),
{
    proof {
        lemma_find_char_props(s@, '\n', a as int, e as int);
    }
    let nlo = find_char_exec(s, '\n', a, e);
    let (lang, nl) = match nlo {
        Some(nl) => (nl > a && all_alnum_exec(s, a, nl), nl),
        None => (false, a),
    };
    let bstart = if lang {
        nl + 1
    } else {
        a
    };
    let mut bend = e;
    while bend > bstart && s[bend - 1] == '\n'
        invariant
            bstart <= bend <= e <= s.len(),
            trim_nl_back(s@, bstart as int, e as int) == trim_nl_back(s@, bstart as int, bend as int),
        decreases bend - bstart,
    {
        bend = bend - 1;
    }
    let ghost before = out@;
    if lang {
        push_str(out, "<pre><code class=\"language-");
        push_all(out, s, a, nl);
        push_str(out, "\">");
        escape_html(s, bstart, bend, out);
        push_str(out, "</code></pre>");
        proof {
            assert(has_lang(s@, a as int, e as int));
            assert(out@ =~= before + ("<pre><code class=\"language-"@ + s@.subrange(a as int, nl as int)
                + "\">"@ + esc_html(s@, bstart as int, bend as int) + "</code></pre>"@));
        }
    } else {
        push_str(out, "<pre><code>");
        escape_html(s, bstart, bend, out);
        push_str(out, "</code></pre>");
        proof {
            assert(!has_lang(s@, a as int, e as int));
            assert(out@ =~= before + ("<pre><code>"@ + esc_html(s@, bstart as int, bend as int)
                + "</code></pre>"@));
        }
    }
}

proof fn lemma_cat_assoc(a: Seq<char>, b: Seq<char>, c: Seq<char>)
    ensures
        a + (b + c) == (a + b) + c,
{
    assert(a + (b + c) =~= (a + b) + c);
}

#[verifier::rlimit(60)]
fn html_range(s: &Vec<char>, lo: usize, hi: usize) -> (r: Vec<char>)
    requires
        lo <= hi <= s.len(),
    ensures
        r@ == html(s@, lo as int, hi as int),
    decreases hi - lo,
{
    let fence = vec!['`', '`', '`'];
    let bold = vec!['*', '*'];
    let mid = vec![']', '('];
    let header = vec!['#', '#', ' '];
    let bullet = vec!['-', ' '];
    let mut out: Vec<char> = Vec::new();
    let mut idx = lo;
    proof {
        assert(Seq::<char>::empty() + html(s@, lo as int, hi as int) =~= html(s@, lo as int, hi as int));
    }
    while idx < hi
        invariant
            lo <= idx <= hi <= s.len(),
            fence@ == fence_pat(),
            bold@ == bold_pat(),
            mid@ == link_mid_pat(),
            header@ == header_pat(),
            bullet@ == bullet_pat(),
            html(s@, lo as int, hi as int) == out@ + html(s@, idx as int, hi as int),
        decreases hi - idx,
    {
        let ghost before = out@;
        if starts_exec(s, idx, hi, &fence) {
            proof {
                lemma_find_in_props(s@, fence_pat(), idx + 3, hi as int);
            }
            if let Some(e) = find_in_exec(s, &fence, idx + 3, hi) {
                render_fence_html(s, idx + 3, e, &mut out);
                proof {
                    lemma_cat_assoc(before, fence_html(s@, idx + 3, e as int), html(s@, e + 3, hi as int));
                }
                idx = e + 3;
                continue;
            }
        }
        if s[idx] == '`' {
            proof {
                lemma_find_char_props(s@, '`', idx + 1, hi as int);
            }
            if let Some(e) = find_char_exec(s, '`', idx + 1, hi) {
                push_str(&mut out, "<code>");
                escape_html(s, idx + 1, e, &mut out);
                push_str(&mut out, "</code>");
                proof {
                    let piece = "<code>"@ + esc_html(s@, idx + 1, e as int) + "</code>"@;
                    assert(out@ =~= before + piece);
                    lemma_cat_assoc(before, piece, html(s@, e + 1, hi as int));
                }
                idx = e + 1;
                continue;
            }
        }
        if starts_exec(s, idx, hi, &bold) {
            proof {
                lemma_find_in_props(s@, bold_pat(), idx + 2, hi as int);
            }
            if let Some(c) = find_in_exec(s, &bold, idx + 2, hi) {
                let inner = html_range(s, idx + 2, c);
                push_str(&mut out, "<b>");
                append_vec(&mut out, &inner);
                push_str(&mut out, "</b>");
                proof {
                    let piece = "<b>"@ + inner@ + "</b>"@;
                    assert(out@ =~= before + piece);
                    lemma_cat_assoc(before, piece, html(s@, c + 2, hi as int));
                }
                idx = c + 2;
                continue;
            }
        }
        if s[idx] == '*' && !starts_exec(s, idx, hi, &bold) {
            if let Some(c) = italic_close_exec(s, idx + 1, hi) {
                let inner = html_range(s, idx + 1, c);
                push_str(&mut out, "<i>");
                append_vec(&mut out, &inner);
                push_str(&mut out, "</i>");
                proof {
                    let piece = "<i>"@ + inner@ + "</i>"@;
                    assert(out@ =~= before + piece);
                    lemma_cat_assoc(before, piece, html(s@, c + 1, hi as int));
                }
                idx = c + 1;
                continue;
            }
        }
        if s[idx] == '[' {
            proof {
                lemma_find_in_props(s@, link_mid_pat(), idx as int, hi as int);
            }
            if let Some(ct) = find_in_exec(s, &mid, idx, hi) {
                if ct > idx + 1 {
                    proof {
                        lemma_find_char_props(s@, ')', ct + 2, hi as int);
                    }
                    if let Some(ue) = find_char_exec(s, ')', ct + 2, hi) {
                        push_str(&mut out, "<a href=\"");
                        escape_html(s, ct + 2, ue, &mut out);
                        push_str(&mut out, "\">");
                        escape_html(s, idx + 1, ct, &mut out);
                        push_str(&mut out, "</a>");
                        proof {
                            let piece = "<a href=\""@ + esc_html(s@, ct + 2, ue as int) + "\">"@
                                + esc_html(s@, idx + 1, ct as int) + "</a>"@;
                            assert(out@ =~= before + piece);
                            lemma_cat_assoc(before, piece, html(s@, ue + 1, hi as int));
                        }
                        idx = ue + 1;
                        continue;
                    }
                }
            }
        }
        if starts_exec(s, idx, hi, &header) {
            proof {
                lemma_find_char_props(s@, '\n', idx + 3, hi as int);
            }
            match find_char_exec(s, '\n', idx + 3, hi) {
                Some(nl) => {
                    push_str(&mut out, "<b>");
                    escape_html(s, idx + 3, nl, &mut out);
                    push_str(&mut out, "</b>\n");
                    proof {
                        let piece = "<b>"@ + esc_html(s@, idx + 3, nl as int) + "</b>\n"@;
                        assert(out@ =~= before + piece);
                        lemma_cat_assoc(before, piece, html(s@, nl + 1, hi as int));
                    }
                    idx = nl + 1;
                    continue;
                },
                None => {
                    push_str(&mut out, "<b>");
                    escape_html(s, idx + 3, hi, &mut out);
                    push_str(&mut out, "</b>");
                    proof {
                        let piece = "<b>"@ + esc_html(s@, idx + 3, hi as int) + "</b>"@;
                        assert(out@ =~= before + piece);
                    }
                    return out;
                },
            }
        }
        if starts_exec(s, idx, hi, &bullet) && (idx == 0 || s[idx - 1] == '\n') {
            push_str(&mut out, "\u{2022} ");
            proof {
                lemma_cat_assoc(before, "\u{2022} "@, html(s@, idx + 2, hi as int));
            }
            idx = idx + 2;
            continue;
        }
        push_html_char(&mut out, s[idx]);
        proof {
            lemma_cat_assoc(before, esc_html_char(s@[idx as int]), html(s@, idx + 1, hi as int));
        }
        idx = idx + 1;
    }
    proof {
        assert(out@ + Seq::<char>::empty() =~= out@);
    }
    out
}

/// Convert Markdown to Telegram HTML (the fallback when MarkdownV2 is
/// rejected): `**b**`, `*i*`, inline and fenced code, links, `## ` headers
/// and `- ` list markers at the start of a line (`• `) are translated;
/// every other `<`, `>`, `&` is escaped.
pub fn markdown_to_html(input: &str) -> (r: String)
    ensures
        r@ == html(input@, 0, input@.len() as int),
{
    let s = str_chars(input);
    let out = html_range(&s, 0, s.len());
    chars_to_string(&out)
}

// ───────────────────────── plain text ─────────────────────────

/// `s[i..]` with every (non-overlapping, left-to-right) occurrence of `pat` removed.
pub open spec fn remove_from(s: Seq<char>, pat: Seq<char>, i: int) -> Seq<char>
    decreases s.len() - i,
{
    if i < 0 || i > s.len() || pat.len() == 0 {
        Seq::empty()
    } else {
        match find_in(s, pat, i, s.len() as int) {
            None => s.subrange(i, s.len() as int),
            Some(j) => if i <= j && j + pat.len() <= s.len() {
                s.subrange(i, j) + remove_from(s, pat, j + pat.len())
            } else {
                Seq::empty()
            },
        }
    }
}

/// `s.replace(pat, "")`.
pub open spec fn remove_all(s: Seq<char>, pat: Seq<char>) -> Seq<char> {
    if pat.len() == 0 {
        s
    } else {
        remove_from(s, pat, 0)
    }
}

/// Replace the first `[text](url)` by `text`, repeatedly, stopping at the
/// first `[` that does not start a complete link.
pub open spec fn strip_links(r: Seq<char>) -> Seq<char>
    decreases r.len(),
{
    match find_char(r, '[', 0, r.len() as int) {
        None => r,
        Some(st) => match find_in(r, link_mid_pat(), st, r.len() as int) {
            None => r,
            Some(ct) => match find_char(r, ')', ct + 2, r.len() as int) {
                None => r,
                Some(ue) => if 0 <= st < ct && ct + 2 <= ue < r.len() {
                    strip_links(r.subrange(0, st) + r.subrange(st + 1, ct) + r.subrange(ue + 1, r.len() as int))
                } else {
                    r
                },
            },
        },
    }
}

/// Plain text with Markdown markers removed.
pub open spec fn strip_md(s: Seq<char>) -> Seq<char> {
    let r1 = remove_all(s, fence_pat());
    let r2 = remove_all(r1, bold_pat());
    let r3 = remove_all(r2, seq!['*']);
    let r4 = remove_all(r3, header_pat());
    let r5 = remove_all(r4, seq!['#', ' ']);
    let r6 = strip_links(r5);
    let r7 = remove_all(r6, seq!['~', '~']);
    remove_all(r7, seq!['`'])
}

fn remove_all_exec(s: &Vec<char>, pat: &Vec<char>) -> (r: Vec<char>)
    requires
        pat.len() > 0,
    ensures
        r@ == remove_all(s@, pat@),
{
    let mut out: Vec<char> = Vec::new();
    let mut i: usize = 0;
    let n = s.len();
    proof {
        assert(Seq::<char>::empty() + remove_from(s@, pat@, 0) =~= remove_from(s@, pat@, 0));
    }
    loop
        invariant
            i <= n == s.len(),
            pat.len() > 0,
            remove_all(s@, pat@) == out@ + remove_from(s@, pat@, i as int),
        decreases n - i,
    {
        proof {
            lemma_find_in_props(s@, pat@, i as int, n as int);
        }
        let ghost before = out@;
        match find_in_exec(s, pat, i, n) {
            None => {
                push_all(&mut out, s, i, n);
                return out;
            },
            Some(j) => {
                push_all(&mut out, s, i, j);
                proof {
                    lemma_cat_assoc(before, s@.subrange(i as int, j as int), remove_from(s@, pat@, j + pat.len()));
                }
                i = j + pat.len();
            },
        }
    }
}

fn strip_links_exec(v: Vec<char>) -> (r: Vec<char>)
    ensures
        r@ == strip_links(v@),
{
    let mid = vec![']', '('];
    let mut r = v;
    loop
        invariant
            strip_links(v@) == strip_links(r@),
            mid@ == link_mid_pat(),
        decreases r.len(),
    {
        let n = r.len();
        proof {
            lemma_find_char_props(r@, '[', 0, n as int);
        }
        let st = match find_char_exec(&r, '[', 0, n) {
            None => return r,
            Some(st) => st,
        };
        proof {
            lemma_find_in_props(r@, link_mid_pat(), st as int, n as int);
        }
        let ct = match find_in_exec(&r, &mid, st, n) {
            None => return r,
            Some(ct) => ct,
        };
        proof {
            lemma_find_char_props(r@, ')', ct + 2, n as int);
        }
        let ue = match find_char_exec(&r, ')', ct + 2, n) {
            None => return r,
            Some(ue) => ue,
        };
        let mut next: Vec<char> = Vec::new();
        push_all(&mut next, &r, 0, st);
        push_all(&mut next, &r, st + 1, ct);
        push_all(&mut next, &r, ue + 1, n);
        proof {
            assert(next@ =~= r@.subrange(0, st as int) + r@.subrange(st + 1, ct as int) + r@.subrange(
                ue + 1,
                n as int,
            ));
        }
        r = next;
    }
}

/// Remove Markdown formatting, leaving readable plain text (the last-resort
/// fallback when neither MarkdownV2 nor HTML is accepted).
pub fn strip_markdown(input: &str) -> (r: String)
    ensures
        r@ == strip_md(input@),
{
    let s = str_chars(input);
    let p1 = vec!['`', '`', '`'];
    let p2 = vec!['*', '*'];
    let p3 = vec!['*'];
    let p4 = vec!['#', '#', ' '];
    let p5 = vec!['#', ' '];
    let p7 = vec!['~', '~'];
    let p8 = vec!['`'];
    assert(p1@ == fence_pat() && p2@ == bold_pat() && p4@ == header_pat());
    assert(p3@ == seq!['*'] && p5@ == seq!['#', ' '] && p7@ == seq!['~', '~'] && p8@ == seq!['`']);
    let r1 = remove_all_exec(&s, &p1);
    let r2 = remove_all_exec(&r1, &p2);
    let r3 = remove_all_exec(&r2, &p3);
    let r4 = remove_all_exec(&r3, &p4);
    let r5 = remove_all_exec(&r4, &p5);
    let r6 = strip_links_exec(r5);
    let r7 = remove_all_exec(&r6, &p7);
    let r8 = remove_all_exec(&r7, &p8);
    chars_to_string(&r8)
}

/// `c` does not occur in `s`.
pub open spec fn lacks(s: Seq<char>, c: char) -> bool {
    forall|k: int| 0 <= k < s.len() ==> s[k] != c
}

proof fn lemma_remove_from_keeps_lacks(s: Seq<char>, pat: Seq<char>, i: int, c: char)
    requires
        lacks(s, c),
    ensures
        lacks(remove_from(s, pat, i), c),
    decreases s.len() - i,
{
    if !(i < 0 || i > s.len() || pat.len() == 0) {
        match find_in(s, pat, i, s.len() as int) {
            None => {},
            Some(j) => {
                if i <= j && j + pat.len() <= s.len() {
                    lemma_remove_from_keeps_lacks(s, pat, j + pat.len(), c);
                }
            },
        }
    }
}

proof fn lemma_remove_from_removes(s: Seq<char>, c: char, i: int)
    requires
        0 <= i <= s.len(),
    ensures
        lacks(remove_from(s, seq![c], i), c),
    decreases s.len() - i,
{
    let pat = seq![c];
    lemma_find_in_props(s, pat, i, s.len() as int);
    match find_in(s, pat, i, s.len() as int) {
        None => {
            assert forall|k: int| 0 <= k < s.len() - i implies #[trigger] s.subrange(i, s.len() as int)[k] != c by {
                assert(!matches_at(s, i + k, pat));
            }
        },
        Some(j) => {
            lemma_remove_from_removes(s, c, j + 1);
            let a = s.subrange(i, j);
            let b = remove_from(s, pat, j + 1);
            assert forall|k: int| 0 <= k < (a + b).len() implies #[trigger] (a + b)[k] != c by {
                if k < a.len() {
                    assert(!matches_at(s, i + k, pat));
                } else {
                    assert((a + b)[k] == b[k - a.len()]);
                }
            }
        },
    }
}

proof fn lemma_strip_links_keeps_lacks(r: Seq<char>, c: char)
    requires
        lacks(r, c),
    ensures
        lacks(strip_links(r), c),
    decreases r.len(),
{
    match find_char(r, '[', 0, r.len() as int) {
        None => {},
        Some(st) => match find_in(r, link_mid_pat(), st, r.len() as int) {
            None => {},
            Some(ct) => match find_char(r, ')', ct + 2, r.len() as int) {
                None => {},
                Some(ue) => {
                    if 0 <= st < ct && ct + 2 <= ue < r.len() {
                        let a = r.subrange(0, st);
                        let b = r.subrange(st + 1, ct);
                        let d = r.subrange(ue + 1, r.len() as int);
                        assert forall|k: int| 0 <= k < (a + b + d).len() implies #[trigger] (a + b + d)[k] != c by {
                            if k < a.len() {
                            } else if k < a.len() + b.len() {
                                assert((a + b + d)[k] == r[st + 1 + k - a.len()]);
                            } else {
                                assert((a + b + d)[k] == r[ue + 1 + k - a.len() - b.len()]);
                            }
                        }
                        lemma_strip_links_keeps_lacks(a + b + d, c);
                    }
                },
            },
        },
    }
}

/// Plain text never keeps an emphasis asterisk or a code backtick.
pub proof fn law_stripped_text_has_no_markers(s: Seq<char>)
    ensures
        lacks(strip_md(s), '*'),
        lacks(strip_md(s), '`'),
{
    let r1 = remove_all(s, fence_pat());
    let r2 = remove_all(r1, bold_pat());
    let r3 = remove_all(r2, seq!['*']);
    lemma_remove_from_removes(r2, '*', 0);
    let r4 = remove_all(r3, header_pat());
    lemma_remove_from_keeps_lacks(r3, header_pat(), 0, '*');
    let r5 = remove_all(r4, seq!['#', ' ']);
    lemma_remove_from_keeps_lacks(r4, seq!['#', ' '], 0, '*');
    let r6 = strip_links(r5);
    lemma_strip_links_keeps_lacks(r5, '*');
    let r7 = remove_all(r6, seq!['~', '~']);
    lemma_remove_from_keeps_lacks(r6, seq!['~', '~'], 0, '*');
    lemma_remove_from_keeps_lacks(r7, seq!['`'], 0, '*');
    lemma_remove_from_removes(r7, '`', 0);
}

/// Inline code as Telegram HTML shows it: each `<`, `>`, `&` as `&lt;`,
/// `&gt;`, `&amp;`, every other character as it is.
pub open spec fn code_html_text(c: Seq<char>) -> Seq<char> {
    c.map_values(
        |ch: char|
            if ch == '<' {
                seq!['&', 'l', 't', ';']
            } else if ch == '>' {
                seq!['&', 'g', 't', ';']
            } else if ch == '&' {
                seq!['&', 'a', 'm', 'p', ';']
            } else {
                seq![ch]
            },
    ).flatten()
}

proof fn lemma_esc_html_is_code_text(s: Seq<char>, a: int, b: int)
    requires
        0 <= a <= b <= s.len(),
    ensures
        esc_html(s, a, b) == code_html_text(s.subrange(a, b)),
    decreases b - a,
{
    reveal_strlit("&lt;");
    reveal_strlit("&gt;");
    reveal_strlit("&amp;");
    if b > a {
        lemma_esc_html_is_code_text(s, a, b - 1);
        let f = |ch: char|
            if ch == '<' {
                seq!['&', 'l', 't', ';']
            } else if ch == '>' {
                seq!['&', 'g', 't', ';']
            } else if ch == '&' {
                seq!['&', 'a', 'm', 'p', ';']
            } else {
                seq![ch]
            };
        assert(s.subrange(a, b).map_values(f) =~= s.subrange(a, b - 1).map_values(f).push(f(s[b - 1])));
        s.subrange(a, b - 1).map_values(f).lemma_flatten_push(f(s[b - 1]));
        assert(esc_html_char(s[b - 1]) =~= f(s[b - 1]));
    } else {
        assert(s.subrange(a, b).map_values(
            |ch: char|
                if ch == '<' {
                    seq!['&', 'l', 't', ';']
                } else if ch == '>' {
                    seq!['&', 'g', 't', ';']
                } else if ch == '&' {
                    seq!['&', 'a', 'm', 'p', ';']
                } else {
                    seq![ch]
                },
        ) =~= Seq::<Seq<char>>::empty());
    }
}

/// Inline code in Telegram HTML: a code span `` `c` `` (no backtick inside,
/// not the start of a fence) becomes `<code>`, then `c` with only `<`, `>`,
/// `&` escaped (no backslash added), then `</code>`; conversion goes on
/// after the closing backtick.
pub proof fn law_inline_code_html(s: Seq<char>, lo: int, e: int, hi: int)
    requires
        0 <= lo < e < hi <= s.len(),
        s[lo] == '`',
        s[e] == '`',
        forall|k: int| lo < k < e ==> s[k] != '`',
        !starts(s, lo, hi, fence_pat()),
    ensures
        html(s, lo, hi) == "<code>"@ + code_html_text(s.subrange(lo + 1, e)) + "</code>"@ + html(s, e + 1, hi),
{
    lemma_find_char_props(s, '`', lo + 1, hi);
    let f = find_char(s, '`', lo + 1, hi);
    assert(f == Some(e)) by {
        match f {
            Some(j) => {
                if j > e {
                    assert(s[e] != '`');
                }
            },
            None => {
                assert(s[e] != '`');
            },
        }
    }
    lemma_esc_html_is_code_text(s, lo + 1, e);
}

/// Plain characters pass through Telegram HTML unchanged: a character that
/// starts no Markdown construct and needs no escaping is copied, and
/// conversion goes on after it.
pub proof fn law_plain_char_html(s: Seq<char>, lo: int, hi: int)
    requires
        0 <= lo < hi <= s.len(),
        s[lo] != '`' && s[lo] != '*' && s[lo] != '[' && s[lo] != '#' && s[lo] != '-',
        s[lo] != '<' && s[lo] != '>' && s[lo] != '&',
    ensures
        html(s, lo, hi) == seq![s[lo]] + html(s, lo + 1, hi),
{
}

} // verus!
