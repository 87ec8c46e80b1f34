//! Character-level text utilities shared by the formatting and parsing code.
//!
//! Strings are handled as sequences of `char` (their vstd view); byte-length
//! questions are answered through the UTF-8 width of each character.

use vstd::prelude::*;

verus! {

/// UTF-8 width of one character (as documented for `char::len_utf8`).
pub open spec fn utf8_width(c: char) -> nat {
    if (c as u32) < 0x80 {
        1
    } else if (c as u32) < 0x800 {
        2
    } else if (c as u32) < 0x10000 {
        3
    } else {
        4
    }
}

/// Number of bytes of the UTF-8 encoding of a character sequence.
pub open spec fn utf8_len(s: Seq<char>) -> nat
    decreases s.len(),
{
    if s.len() == 0 {
        0
    } else {
        utf8_len(s.drop_last()) + utf8_width(s.last())
    }
}

/// `utf8_len` grows by the width of each appended character.
pub proof fn lemma_utf8_len_push(s: Seq<char>, c: char)
    ensures
        utf8_len(s.push(c)) == utf8_len(s) + utf8_width(c),
{
    assert(s.push(c).drop_last() =~= s);
}

/// `utf8_len` is additive over concatenation.
pub proof fn lemma_utf8_len_concat(a: Seq<char>, b: Seq<char>)
    ensures
        utf8_len(a + b) == utf8_len(a) + utf8_len(b),
    decreases b.len(),
{
    if b.len() == 0 {
        assert(a + b =~= a);
    } else {
        lemma_utf8_len_concat(a, b.drop_last());
        assert((a + b).drop_last() =~= a + b.drop_last());
    }
}

/// UTF-8 width of a character, computed.
pub fn char_utf8_width(c: char) -> (w: usize)
    ensures
        w as nat == utf8_width(c),
        1 <= w <= 4,
{
    let u = c as u32;
    if u < 0x80 {
        1
    } else if u < 0x800 {
        2
    } else if u < 0x10000 {
        3
    } else {
        4
    }
}

/// Unicode `White_Space` property (as used by `char::is_whitespace`).
pub open spec fn is_ws(c: char) -> bool {
    let u = c as u32;
    (0x09 <= u && u <= 0x0D) || u == 0x20 || u == 0x85 || u == 0xA0 || u == 0x1680 || (0x2000
        <= u && u <= 0x200A) || u == 0x2028 || u == 0x2029 || u == 0x202F || u == 0x205F || u
        == 0x3000
}

/// Computes `is_ws`.
pub fn char_is_whitespace(c: char) -> (r: bool)
    ensures
        r == is_ws(c),
{
    let u = c as u32;
    (0x09 <= u && u <= 0x0D) || u == 0x20 || u == 0x85 || u == 0xA0 || u == 0x1680 || (0x2000
        <= u && u <= 0x200A) || u == 0x2028 || u == 0x2029 || u == 0x202F || u == 0x205F || u
        == 0x3000
}

/// ASCII letter or digit.
pub open spec fn is_ascii_alnum(c: char) -> bool {
    ('a' <= c && c <= 'z') || ('A' <= c && c <= 'Z') || ('0' <= c && c <= '9')
}

/// ASCII lower-casing of one character (non-ASCII characters are unchanged).
pub open spec fn ascii_lower(c: char) -> char {
    if 'A' <= c && c <= 'Z' {
        ((c as u32) + 32) as char
    } else {
        c
    }
}

/// Computes `ascii_lower`.
pub fn char_ascii_lower(c: char) -> (r: char)
    ensures
        r == ascii_lower(c),
{
    if 'A' <= c && c <= 'Z' {
        let u = (c as u32) + 32;
        assert(0x61 <= u <= 0x7a);
        u as u8 as char
    } else {
        c
    }
}

/// Index of the first character of `s[i..]` that is not whitespace (or `s.len()`).
pub open spec fn skip_ws(s: Seq<char>, i: int) -> int
    decreases s.len() - i,
{
    if i < 0 || i >= s.len() {
        i
    } else if is_ws(s[i]) {
        skip_ws(s, i + 1)
    } else {
        i
    }
}

/// One past the last non-whitespace character of `s[..j]` (or `lo` when none).
pub open spec fn skip_ws_back(s: Seq<char>, lo: int, j: int) -> int
    decreases j - lo,
{
    if j <= lo {
        lo
    } else if is_ws(s[j - 1]) {
        skip_ws_back(s, lo, j - 1)
    } else {
        j
    }
}

pub proof fn lemma_skip_ws_bounds(s: Seq<char>, i: int)
    requires
        0 <= i <= s.len(),
    ensures
        i <= skip_ws(s, i) <= s.len(),
        forall|k: int| i <= k < skip_ws(s, i) ==> is_ws(#[trigger] s[k]),
        skip_ws(s, i) < s.len() ==> !is_ws(s[skip_ws(s, i)]),
    decreases s.len() - i,
{
    if i < s.len() && is_ws(s[i]) {
        lemma_skip_ws_bounds(s, i + 1);
    }
}

pub proof fn lemma_skip_ws_back_bounds(s: Seq<char>, lo: int, j: int)
    requires
        0 <= lo <= j <= s.len(),
    ensures
        lo <= skip_ws_back(s, lo, j) <= j,
    decreases j - lo,
{
    if j > lo && is_ws(s[j - 1]) {
        lemma_skip_ws_back_bounds(s, lo, j - 1);
    }
}

/// `str::trim`: the sequence without leading and trailing whitespace.
pub open spec fn trim(s: Seq<char>) -> Seq<char> {
    let a = skip_ws(s, 0);
    let b = skip_ws_back(s, a, s.len() as int);
    s.subrange(a, b)
}

/// First position `j >= i` at which `pat` occurs inside `s[..hi]`.
pub open spec fn find_in(s: Seq<char>, pat: Seq<char>, i: int, hi: int) -> Option<int>
    decreases hi + 1 - i,
{
    if i < 0 || i + pat.len() > hi || hi > s.len() {
        None
    } else if matches_at(s, i, pat) {
        Some(i)
    } else {
        find_in(s, pat, i + 1, hi)
    }
}

/// `pat` occurs in `s` at position `i`.
pub open spec fn matches_at(s: Seq<char>, i: int, pat: Seq<char>) -> bool {
    &&& 0 <= i
    &&& i + pat.len() <= s.len()
    &&& forall|k: int| 0 <= k < pat.len() ==> s[i + k] == pat[k]
}

/// First position `j >= i` of character `c` inside `s[..hi]`.
pub open spec fn find_char(s: Seq<char>, c: char, i: int, hi: int) -> Option<int>
    decreases hi - i,
{
    if i < 0 || i >= hi || hi > s.len() {
        None
    } else if s[i] == c {
        Some(i)
    } else {
        find_char(s, c, i + 1, hi)
    }
}

pub proof fn lemma_find_char_props(s: Seq<char>, c: char, i: int, hi: int)
    requires
        0 <= i,
        hi <= s.len(),
    ensures
        find_char(s, c, i, hi) matches Some(j) ==> i <= j < hi && s[j] == c && forall|k: int|
            i <= k < j ==> s[k] != c,
        find_char(s, c, i, hi) is None ==> forall|k: int| i <= k < hi ==> s[k] != c,
    decreases hi - i,
{
    if i < hi && s[i] != c {
        lemma_find_char_props(s, c, i + 1, hi);
    }
}

pub proof fn lemma_find_in_props(s: Seq<char>, pat: Seq<char>, i: int, hi: int)
    requires
        0 <= i,
        hi <= s.len(),
    ensures
        find_in(s, pat, i, hi) matches Some(j) ==> i <= j && j + pat.len() <= hi && matches_at(
            s,
            j,
            pat,
        ),
        find_in(s, pat, i, hi) matches Some(j) ==> forall|k: int|
            i <= k < j ==> !matches_at(s, k, pat),
        find_in(s, pat, i, hi) is None ==> forall|k: int|
            i <= k && k + pat.len() <= hi ==> !matches_at(s, k, pat),
    decreases hi + 1 - i,
{
    if i + pat.len() <= hi && !matches_at(s, i, pat) {
        lemma_find_in_props(s, pat, i + 1, hi);
    }
}

/// Does `pat` occur in `s` at `i`? (bounded by `hi`)
pub fn matches_at_exec(s: &Vec<char>, i: usize, hi: usize, pat: &Vec<char>) -> (r: bool)
    requires
        hi <= s.len(),
    ensures
        r == (i + pat.len() <= hi && matches_at(s@, i as int, pat@)),
{
    if pat.len() > hi || i > hi - pat.len() {
        return false;
    }
    let mut k: usize = 0;
    while k < pat.len()
        invariant
            k <= pat.len(),
            i + pat.len() <= hi <= s.len(),
            forall|m: int| 0 <= m < k ==> s@[i + m] == pat@[m],
        decreases pat.len() - k,
    {
        if s[i + k] != pat[k] {
            return false;
        }
        k = k + 1;
    }
    true
}

/// Computes `find_in`.
pub fn find_in_exec(s: &Vec<char>, pat: &Vec<char>, start: usize, hi: usize) -> (r: Option<usize>)
    requires
        hi <= s.len(),
    ensures
        r matches Some(j) ==> find_in(s@, pat@, start as int, hi as int) == Some(j as int),
        r is None ==> find_in(s@, pat@, start as int, hi as int) is None,
{
    let mut i = start;
    while i <= hi && pat.len() <= hi - i
        invariant
            start <= i,
            hi <= s.len(),
            find_in(s@, pat@, start as int, hi as int) == find_in(s@, pat@, i as int, hi as int),
        decreases hi + 1 - i,
    {
        if matches_at_exec(s, i, hi, pat) {
            return Some(i);
        }
        i = i + 1;
    }
    None
}

/// Computes `find_char`.
pub fn find_char_exec(s: &Vec<char>, c: char, start: usize, hi: usize) -> (r: Option<usize>)
    requires
        hi <= s.len(),
    ensures
        r matches Some(j) ==> find_char(s@, c, start as int, hi as int) == Some(j as int),
        r is None ==> find_char(s@, c, start as int, hi as int) is None,
{
    let mut i = start;
    while i < hi
        invariant
            start <= i,
            hi <= s.len(),
            find_char(s@, c, start as int, hi as int) == find_char(s@, c, i as int, hi as int),
        decreases hi - i,
    {
        if s[i] == c {
            return Some(i);
        }
        i = i + 1;
    }
    None
}

/// The characters of a string slice.
pub fn str_chars(s: &str) -> (v: Vec<char>)
    ensures
        v@ == s@,
{
    let mut v: Vec<char> = Vec::new();
    for c in it: s.chars()
        invariant
            v@ == it.seq().take(it.index() as int),
            it.seq() == s@,
    {
        proof {
            assert(it.seq().take(it.index() as int + 1) =~= v@.push(c));
        }
        v.push(c);
    }
    assert(v@ =~= s@);
    v
}

/// Append the characters of `lit` to `out`.
pub fn push_str(out: &mut Vec<char>, lit: &str)
    ensures
        final(out)@ == old(out)@ + lit@,
{
    let v = str_chars(lit);
    push_all(out, &v, 0, v.len());
}

/// Append `src[lo..hi]` to `out`.
pub fn push_all(out: &mut Vec<char>, src: &Vec<char>, lo: usize, hi: usize)
    requires
        lo <= hi <= src.len(),
    ensures
        final(out)@ == old(out)@ + src@.subrange(lo as int, hi as int),
{
    let ghost start = out@;
    let mut i = lo;
    while i < hi
        invariant
            lo <= i <= hi <= src.len(),
            out@ == start + src@.subrange(lo as int, i as int),
        decreases hi - i,
    {
        proof {
            assert(src@.subrange(lo as int, i + 1) =~= src@.subrange(lo as int, i as int).push(
                src@[i as int],
            ));
        }
        out.push(src[i]);
        i = i + 1;
    }
}

/// Copy of `src[lo..hi]`.
pub fn sub_vec(src: &Vec<char>, lo: usize, hi: usize) -> (r: Vec<char>)
    requires
        lo <= hi <= src.len(),
    ensures
        r@ == src@.subrange(lo as int, hi as int),
{
    let mut r: Vec<char> = Vec::new();
    push_all(&mut r, src, lo, hi);
    proof {
        assert(Seq::<char>::empty() + src@.subrange(lo as int, hi as int) =~= src@.subrange(
            lo as int,
            hi as int,
        ));
    }
    r
}

/// A `String` holding exactly the given characters, by collecting them
/// (`String: FromIterator<char>`); vstd specifies no way to build a `String`
/// from single characters.
#[verifier::external_body]
pub(crate) fn chars_to_string(v: &Vec<char>) -> (s: String)
    ensures
        s@ == v@,
{
    v.iter().collect()
}

/// Decimal rendering of an unsigned integer (as `Display` prints it).
pub open spec fn decimal(n: nat) -> Seq<char>
    decreases n,
{
    if n < 10 {
        seq![digit_char(n)]
    } else {
        decimal(n / 10).push(digit_char(n % 10))
    }
}

pub open spec fn digit_char(d: nat) -> char {
    if d == 0 {
        '0'
    } else if d == 1 {
        '1'
    } else if d == 2 {
        '2'
    } else if d == 3 {
        '3'
    } else if d == 4 {
        '4'
    } else if d == 5 {
        '5'
    } else if d == 6 {
        '6'
    } else if d == 7 {
        '7'
    } else if d == 8 {
        '8'
    } else {
        '9'
    }
}

fn digit_char_exec(d: u64) -> (c: char)
    requires
        d < 10,
    ensures
        c == digit_char(d as nat),
{
    if d == 0 {
        '0'
    } else if d == 1 {
        '1'
    } else if d == 2 {
        '2'
    } else if d == 3 {
        '3'
    } else if d == 4 {
        '4'
    } else if d == 5 {
        '5'
    } else if d == 6 {
        '6'
    } else if d == 7 {
        '7'
    } else if d == 8 {
        '8'
    } else {
        '9'
    }
}

/// Append the decimal digits of `n`.
pub fn push_decimal(out: &mut Vec<char>, n: u64)
    ensures
        final(out)@ == old(out)@ + decimal(n as nat),
    decreases n,
{
    if n < 10 {
        out.push(digit_char_exec(n));
        proof {
            assert(old(out)@ + decimal(n as nat) =~= old(out)@.push(digit_char(n as nat)));
        }
    } else {
        push_decimal(out, n / 10);
        out.push(digit_char_exec(n % 10));
        proof {
            assert(old(out)@ + decimal(n as nat) =~= (old(out)@ + decimal((n / 10) as nat)).push(
                digit_char((n % 10) as nat),
            ));
        }
    }
}

/// `pat` occurs somewhere in `s` (`str::contains` with a string pattern).
pub open spec fn contains_seq(s: Seq<char>, pat: Seq<char>) -> bool {
    exists|i: int| #[trigger] matches_at(s, i, pat)
}

/// Computes `contains_seq`.
pub fn contains_exec(s: &Vec<char>, pat: &Vec<char>) -> (r: bool)
    ensures
        r == contains_seq(s@, pat@),
{
    let found = find_in_exec(s, pat, 0, s.len());
    proof {
        lemma_find_in_props(s@, pat@, 0, s@.len() as int);
        if let Some(j) = found {
            assert(matches_at(s@, j as int, pat@));
        }
    }
    found.is_some()
}

/// Computes `contains_seq` for a string-literal pattern.
pub fn contains_str(s: &Vec<char>, pat: &str) -> (r: bool)
    ensures
        r == contains_seq(s@, pat@),
{
    let p = str_chars(pat);
    contains_exec(s, &p)
}

/// ASCII decimal digit.
pub open spec fn is_digit(c: char) -> bool {
    '0' <= c && c <= '9'
}

/// Value of one decimal digit.
pub open spec fn digit_val(c: char) -> nat {
    (c as int - '0' as int) as nat
}

/// Every character is a decimal digit.
pub open spec fn all_digits(s: Seq<char>) -> bool {
    forall|i: int| 0 <= i < s.len() ==> is_digit(#[trigger] s[i])
}

/// Value of a string of decimal digits.
pub open spec fn digits_value(s: Seq<char>) -> nat
    decreases s.len(),
{
    if s.len() == 0 {
        0
    } else {
        digits_value(s.drop_last()) * 10 + digit_val(s.last())
    }
}

/// `str::parse` into an unsigned integer type whose largest value is `max`:
/// an optional `+`, then one or more decimal digits, with a value not above `max`.
pub open spec fn parse_unsigned(s: Seq<char>, max: nat) -> Option<nat> {
    let body = if s.len() > 0 && s[0] == '+' {
        s.drop_first()
    } else {
        s
    };
    if body.len() > 0 && all_digits(body) && digits_value(body) <= max {
        Some(digits_value(body))
    } else {
        None
    }
}

/// A prefix of a digit string never has a larger value than the whole.
pub proof fn lemma_digits_prefix_le(s: Seq<char>, k: int)
    requires
        0 <= k <= s.len(),
        all_digits(s),
    ensures
        digits_value(s.subrange(0, k)) <= digits_value(s),
    decreases s.len(),
{
    if k < s.len() {
        let t = s.drop_last();
        assert(all_digits(t));
        lemma_digits_prefix_le(t, k);
        assert(t.subrange(0, k) =~= s.subrange(0, k));
    } else {
        assert(s.subrange(0, k) =~= s);
    }
}

/// Computes `parse_unsigned` on `s[lo..hi]`.
pub fn parse_unsigned_exec(s: &Vec<char>, lo: usize, hi: usize, max: u64) -> (r: Option<u64>)
    requires
        lo <= hi <= s.len(),
    ensures
        match r {
            Some(v) => parse_unsigned(s@.subrange(lo as int, hi as int), max as nat) == Some(
                v as nat,
            ),
            None => parse_unsigned(s@.subrange(lo as int, hi as int), max as nat) is None,
        },
{
    let ghost whole = s@.subrange(lo as int, hi as int);
    let mut start = lo;
    if lo < hi && s[lo] == '+' {
        start = lo + 1;
    }
    let ghost body = s@.subrange(start as int, hi as int);
    assert(body =~= (if whole.len() > 0 && whole[0] == '+' {
        whole.drop_first()
    } else {
        whole
    }));
    if start >= hi {
        return None;
    }
    let mut v: u64 = 0;
    let mut k = start;
    while k < hi
        invariant
            lo <= start <= k <= hi <= s.len(),
            body == s@.subrange(start as int, hi as int),
            whole == s@.subrange(lo as int, hi as int),
            body == (if whole.len() > 0 && whole[0] == '+' {
                whole.drop_first()
            } else {
                whole
            }),
            all_digits(s@.subrange(start as int, k as int)),
            v as nat == digits_value(s@.subrange(start as int, k as int)),
            v <= max,
        decreases hi - k,
    {
        let c = s[k];
        let ghost pre = s@.subrange(start as int, k as int);
        let ghost next = s@.subrange(start as int, k + 1);
        assert(next.drop_last() =~= pre);
        assert(next[next.len() - 1] == c);
        if !('0' <= c && c <= '9') {
            assert(body[k - start] == c);
            return None;
        }
        let d = (c as u32 - '0' as u32) as u64;
        assert(d as nat == digit_val(c));
        assert(all_digits(next));
        let m = v.checked_mul(10);
        let n = match m {
            Some(m) => m.checked_add(d),
            None => None,
        };
        match n {
            Some(n) => {
                if n > max {
                    proof {
                        if all_digits(body) {
                            assert(body.subrange(0, k + 1 - start) =~= next);
                            lemma_digits_prefix_le(body, k + 1 - start);
                        }
                    }
                    return None;
                }
                v = n;
            },
            None => {
                proof {
                    if all_digits(body) {
                        assert(body.subrange(0, k + 1 - start) =~= next);
                        lemma_digits_prefix_le(body, k + 1 - start);
                    }
                }
                return None;
            },
        }
        k = k + 1;
    }
    assert(s@.subrange(start as int, k as int) =~= body);
    Some(v)
}

/// Computes `a@ == b@` for two character vectors.
pub fn chars_eq(a: &Vec<char>, b: &Vec<char>) -> (r: bool)
    ensures
        r == (a@ == b@),
{
    if a.len() != b.len() {
        return false;
    }
    let mut i: usize = 0;
    while i < a.len()
        invariant
            a.len() == b.len(),
            i <= a.len(),
            forall|k: int| 0 <= k < i ==> a@[k] == b@[k],
        decreases a.len() - i,
    {
        if a[i] != b[i] {
            return false;
        }
        i = i + 1;
    }
    assert(a@ =~= b@);
    true
}

/// String equality (`a == b` on `str`).
pub fn str_eq(a: &str, b: &str) -> (r: bool)
    ensures
        r == (a@ == b@),
{
    let x = str_chars(a);
    let y = str_chars(b);
    chars_eq(&x, &y)
}

/// Append the characters of `s` to `out`.
pub fn push_string(out: &mut Vec<char>, s: &String)
    ensures
        final(out)@ == old(out)@ + s@,
{
    push_str(out, s.as_str());
}

/// Computes `skip_ws`.
pub fn skip_ws_exec(s: &Vec<char>, i: usize) -> (r: usize)
    requires
        i <= s.len(),
    ensures
        r as int == skip_ws(s@, i as int),
        i <= r <= s.len(),
{
    let mut k = i;
    while k < s.len() && char_is_whitespace(s[k])
        invariant
            i <= k <= s.len(),
            skip_ws(s@, i as int) == skip_ws(s@, k as int),
        decreases s.len() - k,
    {
        k = k + 1;
    }
    k
}

/// Computes `skip_ws_back`.
pub fn skip_ws_back_exec(s: &Vec<char>, lo: usize, j: usize) -> (r: usize)
    requires
        lo <= j <= s.len(),
    ensures
        r as int == skip_ws_back(s@, lo as int, j as int),
        lo <= r <= j,
{
    let mut k = j;
    while k > lo && char_is_whitespace(s[k - 1])
        invariant
            lo <= k <= j <= s.len(),
            skip_ws_back(s@, lo as int, j as int) == skip_ws_back(s@, lo as int, k as int),
        decreases k - lo,
    {
        k = k - 1;
    }
    k
}

/// Index of the first whitespace character of `s` at or after `i` (or `s.len()`).
pub open spec fn skip_non_ws(s: Seq<char>, i: int) -> int
    decreases s.len() - i,
{
    if i < 0 || i >= s.len() {
        i
    } else if is_ws(s[i]) {
        i
    } else {
        skip_non_ws(s, i + 1)
    }
}

/// Computes `skip_non_ws`.
pub fn skip_non_ws_exec(s: &Vec<char>, i: usize) -> (r: usize)
    requires
        i <= s.len(),
    ensures
        r as int == skip_non_ws(s@, i as int),
        i <= r <= s.len(),
{
    let mut k = i;
    while k < s.len() && !char_is_whitespace(s[k])
        invariant
            i <= k <= s.len(),
            skip_non_ws(s@, i as int) == skip_non_ws(s@, k as int),
        decreases s.len() - k,
    {
        k = k + 1;
    }
    k
}

/// The views of a sequence of strings.
pub open spec fn views(v: Seq<String>) -> Seq<Seq<char>> {
    Seq::new(v.len(), |i: int| v[i]@)
}

/// `parts` joined with `sep` between consecutive items (`slice::join`).
pub open spec fn join(parts: Seq<Seq<char>>, sep: Seq<char>) -> Seq<char>
    decreases parts.len(),
{
    if parts.len() == 0 {
        Seq::empty()
    } else if parts.len() == 1 {
        parts[0]
    } else {
        join(parts.drop_last(), sep) + sep + parts.last()
    }
}

/// Append `parts` joined with `sep`.
pub fn push_joined(out: &mut Vec<char>, parts: &Vec<String>, sep: &str)
    ensures
        final(out)@ == old(out)@ + join(views(parts@), sep@),
{
    let ghost start = out@;
    let mut i: usize = 0;
    while i < parts.len()
        invariant
            i <= parts.len(),
            out@ == start + join(views(parts@).take(i as int), sep@),
        decreases parts.len() - i,
    {
        let ghost before = out@;
        let ghost pv = views(parts@);
        proof {
            assert(pv.take(i + 1).drop_last() =~= pv.take(i as int));
            assert(pv.take(i + 1).last() == parts@[i as int]@);
        }
        if i > 0 {
            push_str(out, sep);
        }
        push_string(out, &parts[i]);
        proof {
            if i == 0 {
                assert(pv.take(1) =~= seq![pv[0]]);
                assert(out@ =~= start + join(pv.take(i + 1), sep@));
            } else {
                assert(out@ =~= start + join(pv.take(i + 1), sep@));
            }
        }
        i = i + 1;
    }
    assert(views(parts@).take(parts.len() as int) =~= views(parts@));
}

/// Push `name` onto `v` when `present`.
pub fn push_if(v: &mut Vec<String>, present: bool, name: &str)
    ensures
        views(final(v)@) == views(old(v)@) + (if present {
            seq![name@]
        } else {
            Seq::<Seq<char>>::empty()
        }),
{
    if present {
        v.push(String::from_str(name));
    }
    assert(views(v@) =~= views(old(v)@) + (if present {
        seq![name@]
    } else {
        Seq::<Seq<char>>::empty()
    }));
}

/// Every character is ASCII.
pub open spec fn is_ascii_text(s: Seq<char>) -> bool {
    forall|i: int| 0 <= i < s.len() ==> (#[trigger] s[i] as u32) < 128
}

/// Lower-case mapping of a string (`str::to_lowercase`).
pub uninterp spec fn lowercase(s: Seq<char>) -> Seq<char>;

/// `str::to_lowercase` of the standard library (the Unicode lower-case
/// mapping, character by character). What is claimed beyond the name: on
/// ASCII text the Unicode mapping is the ASCII one (`A`–`Z` to `a`–`z`,
/// everything else unchanged).
#[verifier::external_body]
pub(crate) fn to_lowercase(s: &str) -> (r: String)
    ensures
        r@ == lowercase(s@),
        is_ascii_text(s@) ==> r@ == s@.map_values(|c: char| ascii_lower(c)),
{
    s.to_lowercase()
}

/// Index one past the longest run of characters from `i` on whose UTF-8
/// encoding fits in `budget` bytes.
pub open spec fn fit_from(s: Seq<char>, i: int, budget: nat) -> int
    decreases s.len() - i,
{
    if i < 0 || i >= s.len() || utf8_width(s[i]) > budget {
        i
    } else {
        fit_from(s, i + 1, (budget - utf8_width(s[i])) as nat)
    }
}

/// `s` when its UTF-8 encoding fits in `max` bytes; otherwise its longest
/// prefix that fits, followed by `...`.
pub open spec fn truncate_bytes(s: Seq<char>, max: nat) -> Seq<char> {
    let k = fit_from(s, 0, max);
    if k >= s.len() {
        s
    } else {
        s.take(k) + "..."@
    }
}

pub proof fn lemma_fit_from_bounds(s: Seq<char>, i: int, budget: nat)
    requires
        0 <= i <= s.len(),
    ensures
        i <= fit_from(s, i, budget) <= s.len(),
    decreases s.len() - i,
{
    if i < s.len() && utf8_width(s[i]) <= budget {
        lemma_fit_from_bounds(s, i + 1, (budget - utf8_width(s[i])) as nat);
    }
}

/// Computes `trim`.
pub fn trim_chars(c: &Vec<char>) -> (r: Vec<char>)
    ensures
        r@ == trim(c@),
{
    let a = skip_ws_exec(c, 0);
    let b = skip_ws_back_exec(c, a, c.len());
    proof {
        lemma_skip_ws_bounds(c@, 0);
        lemma_skip_ws_back_bounds(c@, a as int, c@.len() as int);
    }
    sub_vec(c, a, b)
}

/// The UTF-8 length of the first `k` characters.
pub fn prefix_utf8_len(c: &Vec<char>, k: usize) -> (n: usize)
    requires
        k <= c@.len(),
        utf8_len(c@.take(k as int)) <= usize::MAX,
    ensures
        n as nat == utf8_len(c@.take(k as int)),
{
    let mut n: usize = 0;
    let mut i: usize = 0;
    while i < k
        invariant
            i <= k <= c@.len(),
            utf8_len(c@.take(k as int)) <= usize::MAX,
            n as nat == utf8_len(c@.take(i as int)),
        decreases k - i,
    {
        proof {
            assert(c@.take(i + 1) =~= c@.take(i as int).push(c@[i as int]));
            lemma_utf8_len_push(c@.take(i as int), c@[i as int]);
            lemma_utf8_prefix_le(c@.take(k as int), i + 1);
            assert(c@.take(k as int).take(i + 1) =~= c@.take(i + 1));
        }
        n = n + char_utf8_width(c[i]);
        i = i + 1;
    }
    n
}

/// Computes `fit_from(c, 0, max)`: the number of leading characters whose
/// UTF-8 encoding fits in `max` bytes.
pub fn fit_prefix_len(c: &Vec<char>, max: usize) -> (i: usize)
    ensures
        i == fit_from(c@, 0, max as nat),
        i <= c@.len(),
{
    let mut i: usize = 0;
    let mut budget: usize = max;
    while i < c.len() && char_utf8_width(c[i]) <= budget
        invariant
            i <= c.len(),
            fit_from(c@, 0, max as nat) == fit_from(c@, i as int, budget as nat),
        decreases c.len() - i,
    {
        budget = budget - char_utf8_width(c[i]);
        i = i + 1;
    }
    i
}

/// Computes `truncate_bytes`.
pub fn truncate_to_bytes(s: &str, max: usize) -> (r: String)
    ensures
        r@ == truncate_bytes(s@, max as nat),
{
    let c = str_chars(s);
    let i = fit_prefix_len(&c, max);
    if i >= c.len() {
        return chars_to_string(&c);
    }
    let mut out = sub_vec(&c, 0, i);
    push_str(&mut out, "...");
    assert(c@.subrange(0, i as int) =~= c@.take(i as int));
    chars_to_string(&out)
}

/// The UTF-8 length of a prefix never exceeds that of the whole.
pub proof fn lemma_utf8_prefix_le(s: Seq<char>, k: int)
    requires
        0 <= k <= s.len(),
    ensures
        utf8_len(s.take(k)) <= utf8_len(s),
    decreases s.len(),
{
    if k < s.len() {
        lemma_utf8_prefix_le(s.drop_last(), k);
        assert(s.drop_last().take(k) =~= s.take(k));
    } else {
        assert(s.take(k) =~= s);
    }
}

/// Is the UTF-8 encoding of `s` at least `n` bytes long?
pub fn utf8_len_at_least(s: &Vec<char>, n: usize) -> (r: bool)
    requires
        n <= usize::MAX - 4,
    ensures
        r == (utf8_len(s@) >= n),
{
    let mut acc: usize = 0;
    let mut i: usize = 0;
    while i < s.len() && acc < n
        invariant
            i <= s.len(),
            acc as nat == utf8_len(s@.take(i as int)),
            acc <= n + 4,
            n <= usize::MAX - 4,
        decreases s.len() - i,
    {
        assert(s@.take(i + 1).drop_last() =~= s@.take(i as int));
        acc = acc + char_utf8_width(s[i]);
        i = i + 1;
    }
    proof {
        lemma_utf8_prefix_le(s@, i as int);
        if i >= s.len() {
            assert(s@.take(i as int) =~= s@);
        }
    }
    acc >= n
}

proof fn lemma_utf8_len_single(c: char)
    ensures
        utf8_len(seq![c]) == utf8_width(c),
{
    assert(seq![c].drop_last() =~= Seq::<char>::empty());
    assert(utf8_len(Seq::<char>::empty()) == 0);
}

pub proof fn lemma_fit_from_fits(s: Seq<char>, i: int, budget: nat)
    requires
        0 <= i <= s.len(),
    ensures
        i <= fit_from(s, i, budget) <= s.len(),
        utf8_len(s.subrange(i, fit_from(s, i, budget))) <= budget,
    decreases s.len() - i,
{
    lemma_fit_from_bounds(s, i, budget);
    if i < s.len() && utf8_width(s[i]) <= budget {
        let b2 = (budget - utf8_width(s[i])) as nat;
        lemma_fit_from_fits(s, i + 1, b2);
        let e = fit_from(s, i, budget);
        let rest = s.subrange(i + 1, e);
        assert(s.subrange(i, e) =~= seq![s[i]] + rest);
        lemma_utf8_len_concat(seq![s[i]], rest);
        lemma_utf8_len_single(s[i]);
    } else {
        assert(s.subrange(i, i) =~= Seq::<char>::empty());
    }
}

/// A truncated text takes at most `max` bytes, plus the three of `...`.
pub proof fn law_truncate_bytes_bound(s: Seq<char>, max: nat)
    ensures
        utf8_len(truncate_bytes(s, max)) <= max + 3,
        utf8_len(s) <= max ==> truncate_bytes(s, max) == s,
{
    lemma_fit_from_fits(s, 0, max);
    let k = fit_from(s, 0, max);
    assert(s.subrange(0, k) =~= s.take(k));
    if k < s.len() {
        reveal_strlit("...");
        lemma_utf8_len_concat(s.take(k), "..."@);
        assert("..."@ =~= seq!['.', '.', '.']);
        lemma_utf8_len_single('.');
        assert(seq!['.', '.', '.'] =~= seq!['.'] + seq!['.'] + seq!['.']);
        lemma_utf8_len_concat(seq!['.'], seq!['.']);
        lemma_utf8_len_concat(seq!['.'] + seq!['.'], seq!['.']);
        assert(utf8_len(seq!['.'] + seq!['.'] + seq!['.']) == 3);
        assert(utf8_len("..."@) == 3);
        assert(truncate_bytes(s, max) == s.take(k) + "..."@);
        if utf8_len(s) <= max {
            assert(s.subrange(0, s.len() as int) =~= s);
            lemma_fit_whole(s, 0, max);
        }
    } else {
        assert(s.subrange(0, k) =~= s);
    }
}

proof fn lemma_fit_whole(s: Seq<char>, i: int, budget: nat)
    requires
        0 <= i <= s.len(),
        utf8_len(s.subrange(i, s.len() as int)) <= budget,
    ensures
        fit_from(s, i, budget) == s.len(),
    decreases s.len() - i,
{
    if i < s.len() {
        let rest = s.subrange(i + 1, s.len() as int);
        assert(s.subrange(i, s.len() as int) =~= seq![s[i]] + rest);
        lemma_utf8_len_concat(seq![s[i]], rest);
        lemma_utf8_len_single(s[i]);
        lemma_fit_whole(s, i + 1, (budget - utf8_width(s[i])) as nat);
    }
}

} // verus!
