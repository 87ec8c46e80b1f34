//! Trace IDs for request correlation, and the trace context carried
//! through a request.

use vstd::prelude::*;
use crate::text::chars_to_string;
use crate::text::str_chars;

verus! {

/// Lower-case hexadecimal digit.
pub open spec fn is_lower_hex(c: char) -> bool {
    ('0' <= c && c <= '9') || ('a' <= c && c <= 'f')
}

/// The hyphenated form of a UUID: 36 characters, `-` at positions 8, 13,
/// 18 and 23, lower-case hexadecimal digits elsewhere.
pub open spec fn hyphenated_uuid(s: Seq<char>) -> bool {
    &&& s.len() == 36
    &&& forall|i: int|
        0 <= i < 36 ==> if i == 8 || i == 13 || i == 18 || i == 23 {
            s[i] == '-'
        } else {
            is_lower_hex(#[trigger] s[i])
        }
}

/// A fresh random UUID (version 4) in its hyphenated text form, from
/// `uuid::Uuid::new_v4().to_string()`. The value is random; what is claimed
/// is the shape of the text, which uuid's `Display` writes as lower-case
/// hyphenated hexadecimal.
#[verifier::external_body]
pub(crate) fn new_uuid_text() -> (s: String)
    ensures
        hyphenated_uuid(s@),
{
    uuid::Uuid::new_v4().to_string()
}

/// The characters of `s` other than `-`, in order.
pub open spec fn without_dashes(s: Seq<char>) -> Seq<char>
    decreases s.len(),
{
    if s.len() == 0 {
        Seq::empty()
    } else if s.last() == '-' {
        without_dashes(s.drop_last())
    } else {
        without_dashes(s.drop_last()).push(s.last())
    }
}

/// The trace ID made from a UUID's text: `tr-` and the first 12 hex digits.
pub open spec fn trace_id_from(uuid: Seq<char>) -> Seq<char> {
    "tr-"@ + without_dashes(uuid).take(12)
}

/// `without_dashes` of a hyphenated UUID starts with its first eight digits,
/// then the next four, and has at least twelve characters.
proof fn lemma_without_dashes_prefix(s: Seq<char>, k: int)
    requires
        hyphenated_uuid(s),
        0 <= k <= 13,
    ensures
        without_dashes(s.take(k)).len() == (if k <= 8 {
            k
        } else {
            k - 1
        }),
        forall|i: int| 0 <= i < without_dashes(s.take(k)).len() ==> is_lower_hex(#[trigger] without_dashes(s.take(k))[i]),
    decreases k,
{
    if k > 0 {
        lemma_without_dashes_prefix(s, k - 1);
        assert(s.take(k).drop_last() =~= s.take(k - 1));
    } else {
        assert(s.take(0) =~= Seq::<char>::empty());
    }
}

/// Generate a short trace ID: `tr-` followed by the first 12 hex digits of a
/// fresh random UUID (15 characters in all).
pub fn generate_trace_id() -> (id: String)
    ensures
        id@.len() == 15,
        id@.subrange(0, 3) == "tr-"@,
        forall|i: int| 3 <= i < 15 ==> is_lower_hex(#[trigger] id@[i]),
        exists|u: Seq<char>| hyphenated_uuid(u) && id@ == trace_id_from(u),
{
    let u = new_uuid_text();
    let c = str_chars(u.as_str());
    let mut out = str_chars("tr-");
    let ghost prefix = out@;
    proof {
        reveal_strlit("tr-");
        assert(prefix.len() == 3);
    }
    let mut i: usize = 0;
    while i < 13
        invariant
            i <= 13,
            c@ == u@,
            hyphenated_uuid(c@),
            prefix == "tr-"@,
            out@ == prefix + without_dashes(c@.take(i as int)),
        decreases 13 - i,
    {
        assert(c@.take(i + 1).drop_last() =~= c@.take(i as int));
        if c[i] != '-' {
            out.push(c[i]);
            assert(out@ =~= prefix + without_dashes(c@.take(i + 1)));
        }
        i = i + 1;
    }
    proof {
        lemma_without_dashes_prefix(c@, 13);
        lemma_take_without_dashes(c@, 36);
        assert(c@.take(36) =~= c@);
        assert(out@ =~= trace_id_from(u@));
    }
    chars_to_string(&out)
}

/// Past position 13, a hyphenated UUID's characters only add to the
/// twelve digits taken so far.
proof fn lemma_take_without_dashes(s: Seq<char>, k: int)
    requires
        hyphenated_uuid(s),
        13 <= k <= 36,
    ensures
        without_dashes(s.take(k)).len() >= 12,
        without_dashes(s.take(k)).take(12) == without_dashes(s.take(13)),
    decreases k,
{
    lemma_without_dashes_prefix(s, 13);
    assert(without_dashes(s.take(13)).take(12) =~= without_dashes(s.take(13)));
    if k > 13 {
        lemma_take_without_dashes(s, k - 1);
        assert(s.take(k).drop_last() =~= s.take(k - 1));
        let a = without_dashes(s.take(k - 1));
        assert(a.push(s[k - 1]).take(12) =~= a.take(12));
    }
}

/// Trace context carried through the request lifecycle.
#[derive(Debug, Clone)]
pub struct TraceContext {
    pub trace_id: String,
    pub parent_span_id: Option<String>,
}

} // verus!
