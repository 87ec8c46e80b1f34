//! Wall-clock time, as the text that session records store.

use vstd::prelude::*;

verus! {

/// The current local time as an RFC 3339 string, from
/// `chrono::Local::now().to_rfc3339()`. The value depends on the clock;
/// what is claimed is only that the text is not empty (chrono always writes
/// the date and time).
#[verifier::external_body]
pub(crate) fn now_rfc3339() -> (s: String)
    ensures
        s@.len() > 0,
{
    chrono::Local::now().to_rfc3339()
}

/// The current time in whole seconds since the Unix epoch, from
/// `chrono::Utc::now().timestamp()` taken as `u64`. The value depends on the
/// clock, so nothing is claimed of it.
#[verifier::external_body]
pub(crate) fn now_unix_secs() -> (t: u64)
{
    chrono::Utc::now().timestamp() as u64
}

} // verus!
