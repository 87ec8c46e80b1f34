//! Retry policy with exponential backoff for provider API calls.
//!
//! Rate-limited (429) and transient server errors (5xx) are retried with
//! increasing delays. Durations are counted in milliseconds. The waiting
//! itself happens in the caller: `retry_decision` says, after a failed
//! attempt, whether to give up or how long to wait before the next one.

use vstd::prelude::*;
use vstd::arithmetic::power2::pow2;
use vstd::arithmetic::power2::lemma_pow2_strictly_increases;
use vstd::arithmetic::power2::lemma_pow2_pos;
use vstd::arithmetic::mul::lemma_mul_inequality;
use vstd::bits::lemma_u64_shl_is_mul;
use vstd::bits::lemma_u64_pow2_no_overflow;
use crate::text::contains_seq;
use crate::text::contains_str;
use crate::text::find_char;
use crate::text::find_char_exec;
use crate::text::lemma_find_char_props;
use crate::text::parse_unsigned;
use crate::text::parse_unsigned_exec;
use crate::text::str_chars;

verus! {

/// Default maximum number of retry attempts.
pub const DEFAULT_MAX_RETRIES: u32 = 3;

/// Default initial backoff, in milliseconds.
pub const DEFAULT_INITIAL_BACKOFF_MS: u64 = 1000;

/// Upper bound of any backoff, in milliseconds.
pub const MAX_BACKOFF_MS: u64 = 60000;

/// Configuration for retry behaviour.
#[derive(Debug, Clone, Copy, PartialEq, Eq)]
pub struct RetryConfig {
    /// Maximum number of retry attempts (0 = no retries).
    pub max_retries: u32,
    /// Initial backoff, in milliseconds.
    pub initial_backoff_ms: u64,
    /// Whether to retry on server errors (5xx).
    pub retry_on_server_error: bool,
}

impl Default for RetryConfig {
    fn default() -> (r: Self)
        ensures
            r.max_retries == DEFAULT_MAX_RETRIES,
            r.initial_backoff_ms == DEFAULT_INITIAL_BACKOFF_MS,
            r.retry_on_server_error,
    {
        RetryConfig {
            max_retries: DEFAULT_MAX_RETRIES,
            initial_backoff_ms: DEFAULT_INITIAL_BACKOFF_MS,
            retry_on_server_error: true,
        }
    }
}

impl RetryConfig {
    /// A config with no retries.
    pub fn no_retries() -> (r: Self)
        ensures
            r.max_retries == 0,
            r.initial_backoff_ms == DEFAULT_INITIAL_BACKOFF_MS,
            !r.retry_on_server_error,
    {
        RetryConfig {
            max_retries: 0,
            initial_backoff_ms: DEFAULT_INITIAL_BACKOFF_MS,
            retry_on_server_error: false,
        }
    }

    /// The same config with another maximum retry count.
    pub fn with_max_retries(self, max: u32) -> (r: Self)
        ensures
            r == (RetryConfig { max_retries: max, ..self }),
    {
        let mut c = self;
        c.max_retries = max;
        c
    }
}

/// A status code worth retrying: 429 or any 5xx.
pub open spec fn retryable_status(status: u16) -> bool {
    status == 429 || (500 <= status && status < 600)
}

/// Decide whether a status code is retryable.
pub fn is_retryable_status(status: u16) -> (r: bool)
    ensures
        r == retryable_status(status),
{
    status == 429 || (status >= 500 && status < 600)
}

/// `1u64.checked_shl(attempt).unwrap_or(u64::MAX)`.
pub open spec fn backoff_factor(attempt: u32) -> nat {
    if attempt < 64 {
        pow2(attempt as nat)
    } else {
        0xffff_ffff_ffff_ffff
    }
}

/// Exponential backoff: `initial * 2^attempt`, capped at `MAX_BACKOFF_MS`.
pub open spec fn backoff_ms(initial_ms: nat, attempt: u32) -> nat {
    let d = initial_ms * backoff_factor(attempt);
    if d < MAX_BACKOFF_MS {
        d
    } else {
        MAX_BACKOFF_MS as nat
    }
}

/// Compute the backoff (in milliseconds) for a given attempt (0-indexed),
/// for every attempt: the product is capped, never overflows.
pub fn backoff_duration(initial_ms: u64, attempt: u32) -> (r: u64)
    ensures
        r as nat == backoff_ms(initial_ms as nat, attempt),
{
    let factor: u64 = if attempt < 64 {
        let sh: u64 = attempt as u64;
        proof {
            lemma_u64_pow2_no_overflow(sh as nat);
            lemma_u64_shl_is_mul(1, sh);
        }
        1u64 << sh
    } else {
        u64::MAX
    };
    assert(factor as nat == backoff_factor(attempt));
    proof {
        lemma_pow2_pos(attempt as nat);
    }
    assert(factor >= 1);
    if initial_ms == 0 {
        assert(initial_ms as nat * factor as nat == 0);
        return 0;
    }
    if factor > MAX_BACKOFF_MS || initial_ms > MAX_BACKOFF_MS {
        assert(initial_ms as nat * factor as nat >= MAX_BACKOFF_MS) by (nonlinear_arith)
            requires
                initial_ms >= 1,
                factor >= 1,
                factor > MAX_BACKOFF_MS || initial_ms > MAX_BACKOFF_MS,
        ;
        return MAX_BACKOFF_MS;
    }
    assert(initial_ms as nat * factor as nat <= 60000 * 60000) by (nonlinear_arith)
        requires
            initial_ms <= 60000,
            factor <= 60000,
    ;
    let d = initial_ms * factor;
    if d < MAX_BACKOFF_MS {
        d
    } else {
        MAX_BACKOFF_MS
    }
}

/// Backoff never exceeds the cap.
pub proof fn lemma_backoff_capped(initial_ms: nat, attempt: u32)
    ensures
        backoff_ms(initial_ms, attempt) <= MAX_BACKOFF_MS,
{
}

/// Backoff grows (weakly) with the attempt number.
pub proof fn lemma_backoff_monotone(initial_ms: nat, a1: u32, a2: u32)
    requires
        a1 <= a2,
    ensures
        backoff_ms(initial_ms, a1) <= backoff_ms(initial_ms, a2),
{
    lemma_pow2_pos(a1 as nat);
    if a2 < 64 {
        if a1 < a2 {
            lemma_pow2_strictly_increases(a1 as nat, a2 as nat);
        }
    } else if a1 < 64 {
        lemma_u64_pow2_no_overflow(a1 as nat);
    }
    assert(backoff_factor(a1) <= backoff_factor(a2));
    lemma_mul_inequality(
        backoff_factor(a1) as int,
        backoff_factor(a2) as int,
        initial_ms as int,
    );
    assert(initial_ms * backoff_factor(a1) <= initial_ms * backoff_factor(a2)) by (nonlinear_arith)
        requires
            backoff_factor(a1) * initial_ms <= backoff_factor(a2) * initial_ms,
    ;
}

/// HTTP status in an error message like "API error (429): ...": the text
/// between the first `(` and the first `)`, when that `)` comes after it,
/// parsed as a `u16`.
pub open spec fn status_in_message(msg: Seq<char>) -> Option<u16> {
    match find_char(msg, '(', 0, msg.len() as int) {
        None => None,
        Some(start) => match find_char(msg, ')', 0, msg.len() as int) {
            None => None,
            Some(end) => if end > start {
                match parse_unsigned(msg.subrange(start + 1, end), 65535) {
                    Some(v) => Some(v as u16),
                    None => None,
                }
            } else {
                None
            },
        },
    }
}

/// Extract an HTTP status code from an error message.
pub fn extract_status_code(msg: &str) -> (r: Option<u16>)
    ensures
        r == status_in_message(msg@),
{
    let s = str_chars(msg);
    let start = match find_char_exec(&s, '(', 0, s.len()) {
        Some(i) => i,
        None => return None,
    };
    let end = match find_char_exec(&s, ')', 0, s.len()) {
        Some(j) => j,
        None => return None,
    };
    proof {
        lemma_find_char_props(s@, '(', 0, s@.len() as int);
        lemma_find_char_props(s@, ')', 0, s@.len() as int);
    }
    if end <= start {
        return None;
    }
    match parse_unsigned_exec(&s, start + 1, end, 65535) {
        Some(v) => Some(v as u16),
        None => None,
    }
}

/// An error message worth retrying: it carries a retryable status code, or,
/// without a code, it speaks of a connection problem or a timeout.
pub open spec fn retryable_message(msg: Seq<char>) -> bool {
    match status_in_message(msg) {
        Some(code) => retryable_status(code),
        None => contains_seq(msg, "connection"@) || contains_seq(msg, "timeout"@)
            || contains_seq(msg, "refused"@),
    }
}

/// Check whether an error (given by its message) is retryable.
pub fn is_retryable_err(msg: &str) -> (r: bool)
    ensures
        r == retryable_message(msg@),
{
    if let Some(code) = extract_status_code(msg) {
        return is_retryable_status(code);
    }
    let s = str_chars(msg);
    contains_str(&s, "connection") || contains_str(&s, "timeout") || contains_str(&s, "refused")
}

/// What to do after a failed attempt.
#[derive(Debug, Clone, Copy, PartialEq, Eq)]
pub enum RetryAction {
    /// Return the error to the caller.
    GiveUp,
    /// Wait this many milliseconds, then make the next attempt.
    RetryAfterMs(u64),
}

/// Retries are left after the 0-indexed `attempt` failed.
pub open spec fn retries_left(config: RetryConfig, attempt: u32) -> bool {
    config.max_retries > attempt
}

/// An error message worth retrying under `config`: a 429, a 5xx only when
/// the configuration retries server errors, or, without a code, a connection
/// problem or a timeout.
pub open spec fn retryable_under(config: RetryConfig, msg: Seq<char>) -> bool {
    match status_in_message(msg) {
        Some(code) => code == 429 || (config.retry_on_server_error && 500 <= code < 600),
        None => retryable_message(msg),
    }
}

/// The decision taken after attempt `attempt` failed with error message `msg`.
pub open spec fn retry_action(config: RetryConfig, attempt: u32, msg: Seq<char>) -> RetryAction {
    if !retries_left(config, attempt) || !retryable_under(config, msg) {
        RetryAction::GiveUp
    } else {
        RetryAction::RetryAfterMs(backoff_ms(config.initial_backoff_ms as nat, attempt) as u64)
    }
}

/// Decide, after the 0-indexed attempt `attempt` failed with the error
/// message `msg`, whether to give up or to wait and try again.
pub fn retry_decision(config: &RetryConfig, attempt: u32, msg: &str) -> (r: RetryAction)
    ensures
        r == retry_action(*config, attempt, msg@),
        attempt >= config.max_retries ==> r == RetryAction::GiveUp,
        r matches RetryAction::RetryAfterMs(d) ==> d <= MAX_BACKOFF_MS,
{
    let left = config.max_retries.saturating_sub(attempt);
    if left == 0 {
        return RetryAction::GiveUp;
    }
    let retry = match extract_status_code(msg) {
        Some(code) => code == 429 || (config.retry_on_server_error && code >= 500 && code < 600),
        None => is_retryable_err(msg),
    };
    if !retry {
        return RetryAction::GiveUp;
    }
    RetryAction::RetryAfterMs(backoff_duration(config.initial_backoff_ms, attempt))
}

/// The `Retry-After` delay in seconds, from the header's text (`None` when
/// the header is absent): only a whole number of seconds is understood.
pub fn parse_retry_after(value: Option<&str>) -> (r: Option<u64>)
    ensures
        match value {
            Some(v) => match parse_unsigned(v@, u64::MAX as nat) {
                Some(n) => r == Some(n as u64),
                None => r is None,
            },
            None => r is None,
        },
{
    match value {
        Some(v) => {
            let c = str_chars(v);
            let r = parse_unsigned_exec(&c, 0, c.len(), u64::MAX);
            assert(c@.subrange(0, c@.len() as int) =~= c@);
            r
        },
        None => None,
    }
}

} // verus!
