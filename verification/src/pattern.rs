//! Compiled regular expressions (the `regex` crate), with the pattern text
//! they were compiled from.

use vstd::prelude::*;

verus! {

#[verifier::external_type_specification]
#[verifier::external_body]
pub struct ExRegex(regex::Regex);

/// What `regex::Regex::new` reports for a pattern: `None` when it compiles,
/// else the error's message.
pub uninterp spec fn regex_error(pattern: Seq<char>) -> Option<Seq<char>>;

/// `regex::Regex::is_match`: the compiled `pattern` matches somewhere in `text`.
pub uninterp spec fn regex_is_match(pattern: Seq<char>, text: Seq<char>) -> bool;

/// A compiled regular expression and its pattern text.
pub struct Pattern {
    text: String,
    re: regex::Regex,
}

impl Pattern {
    /// The pattern text it was compiled from.
    pub closed spec fn text(&self) -> Seq<char> {
        self.text@
    }
}

/// Compile `pattern` with `regex::Regex::new`: the compiled expression with
/// its text, or the error's message (`Display` of `regex::Error`).
#[verifier::external_body]
pub(crate) fn compile_pattern(pattern: &str) -> (r: Result<Pattern, String>)
    ensures
        match r {
            Ok(p) => p.text() == pattern@ && regex_error(pattern@) is None,
            Err(e) => regex_error(pattern@) == Some(e@),
        },
{
    match regex::Regex::new(pattern) {
        Ok(re) => Ok(Pattern { text: pattern.to_string(), re }),
        Err(e) => Err(e.to_string()),
    }
}

/// `regex::Regex::is_match` of the compiled expression on `text`. A
/// `Pattern` is only made by `compile_pattern`, so its expression is the
/// one compiled from its text.
#[verifier::external_body]
pub(crate) fn pattern_matches(p: &Pattern, text: &str) -> (r: bool)
    ensures
        r == regex_is_match(p.text(), text@),
{
    p.re.is_match(text)
}

} // verus!
