//! Stream progress tracker: the state machine of one LLM interaction, which
//! decides when to send status messages to keep the user informed during
//! long waits.
//!
//! Times are milliseconds on a monotonic clock read by the caller, who
//! passes the current time to each step.

use vstd::prelude::*;
use crate::text::chars_to_string;
use crate::text::decimal;
use crate::text::push_decimal;
use crate::text::push_str;
use crate::text::str_chars;

verus! {

/// Phases of the LLM interaction lifecycle.
#[derive(Debug, Clone, Copy, PartialEq, Eq, Structural)]
pub enum StreamPhase {
    /// Provider request initiated, waiting for the TCP/TLS handshake.
    Connecting,
    /// Connection established, waiting for the first SSE chunk.
    WaitingFirstByte,
    /// A reasoning model is sending thinking tokens (no visible content yet).
    Thinking,
    /// Content is being streamed to the user.
    Streaming,
    /// Interaction complete.
    Done,
}

/// A progress message to send to the user.
#[derive(Debug, Clone)]
pub struct ProgressMessage {
    pub content: String,
    /// Whether this is a warning (vs informational).
    pub is_warning: bool,
}

/// Tracks the current LLM interaction and decides when to emit status messages.
#[derive(Debug, Clone)]
pub struct StreamProgressTracker {
    pub phase: StreamPhase,
    pub phase_entered_at_ms: u64,
    pub stream_started_at_ms: u64,
    pub thinking_started_at_ms: Option<u64>,
    // Thresholds.
    pub first_byte_warning_after_ms: u64,
    pub first_byte_slow_after_ms: u64,
    pub thinking_first_indicator_after_ms: u64,
    pub thinking_update_interval_ms: u64,
    pub message_timeout_ms: u64,
    // Dedup flags.
    pub sent_first_byte_warning: bool,
    pub sent_first_byte_slow: bool,
    pub sent_timeout_warning: bool,
    pub sent_reconnecting: bool,
    pub thinking_updates_sent: u32,
}

/// `a - b`, or zero when `b` is later.
pub open spec fn since(now: u64, t: u64) -> u64 {
    if now >= t {
        (now - t) as u64
    } else {
        0
    }
}

/// Whole seconds in a millisecond count.
pub open spec fn secs(ms: u64) -> u64 {
    ms / 1000
}

/// The streaming time has reached 80% of the message timeout
/// (`elapsed / timeout >= 0.8`; with a zero timeout, any elapsed time counts).
pub open spec fn near_timeout(total_ms: u64, timeout_ms: u64) -> bool {
    if timeout_ms == 0 {
        total_ms > 0
    } else {
        5 * total_ms >= 4 * timeout_ms
    }
}

pub open spec fn reconnect_text() -> Seq<char> {
    "\u{26a0}\u{fe0f} \u{8fde}\u{63a5}\u{8d85}\u{65f6}\u{ff0c}\u{6b63}\u{5728}\u{5c1d}\u{8bd5}\u{91cd}\u{8fde}..."@
}

pub open spec fn reasoning_text() -> Seq<char> {
    "\u{1f914} \u{6a21}\u{578b}\u{6b63}\u{5728}\u{63a8}\u{7406}\u{4e2d}..."@
}

pub open spec fn slow_text(waited_secs: u64) -> Seq<char> {
    "\u{23f3} \u{54cd}\u{5e94}\u{8f83}\u{6162}\u{ff0c}\u{6b63}\u{5728}\u{7b49}\u{5f85}\u{ff08}\u{5df2}\u{7b49}\u{5f85} "@
        + decimal(waited_secs as nat) + "s\u{ff09}..."@
}

pub open spec fn timeout_text(used_secs: u64, limit_secs: u64) -> Seq<char> {
    "\u{26a0}\u{fe0f} \u{5373}\u{5c06}\u{8d85}\u{65f6}\u{ff08}\u{5df2}\u{7528} "@ + decimal(used_secs as nat)
        + "s / \u{9650}\u{5236} "@ + decimal(limit_secs as nat) + "s\u{ff09}..."@
}

pub open spec fn deep_thinking_text() -> Seq<char> {
    "\u{1f914} \u{6a21}\u{578b}\u{6b63}\u{5728}\u{6df1}\u{5ea6}\u{601d}\u{8003}\u{4e2d}..."@
}

pub open spec fn still_thinking_text(thought_secs: u64) -> Seq<char> {
    "\u{1f4ad} \u{4ecd}\u{5728}\u{601d}\u{8003}\u{4e2d}... \u{ff08}\u{5df2}\u{601d}\u{8003} "@ + decimal(
        thought_secs as nat,
    ) + "s\u{ff09}"@
}

/// A message as plain values.
pub open spec fn msg(content: Seq<char>, is_warning: bool) -> Option<(Seq<char>, bool)> {
    Some((content, is_warning))
}

impl StreamProgressTracker {
    /// Time spent in the current phase.
    pub open spec fn phase_elapsed(&self, now: u64) -> u64 {
        since(now, self.phase_entered_at_ms)
    }

    /// Time since the stream started.
    pub open spec fn total_elapsed_spec(&self, now: u64) -> u64 {
        since(now, self.stream_started_at_ms)
    }

    /// The number of thinking updates the elapsed time calls for: one plus
    /// the whole update intervals past the first indicator (none before it;
    /// a zero interval asks for no periodic updates). The count is kept in a
    /// `u32` and wraps past its largest value.
    pub open spec fn expected_updates(&self, now: u64) -> u32 {
        if self.thinking_update_interval_ms == 0 {
            1
        } else {
            let q = (since(self.phase_elapsed(now), self.thinking_first_indicator_after_ms)
                / self.thinking_update_interval_ms) as u32;
            if q == u32::MAX {
                0
            } else {
                (q + 1) as u32
            }
        }
    }

    /// The tracker after polling at `now`, and the message produced.
    pub open spec fn poll_spec(&self, now: u64) -> (StreamProgressTracker, Option<(Seq<char>, bool)>) {
        let pe = self.phase_elapsed(now);
        let total = self.total_elapsed_spec(now);
        match self.phase {
            StreamPhase::WaitingFirstByte => {
                if !self.sent_first_byte_warning && pe >= self.first_byte_warning_after_ms {
                    (StreamProgressTracker { sent_first_byte_warning: true, ..*self }, msg(reasoning_text(), false))
                } else if !self.sent_first_byte_slow && pe >= self.first_byte_slow_after_ms {
                    (StreamProgressTracker { sent_first_byte_slow: true, ..*self }, msg(slow_text(secs(pe)), true))
                } else {
                    (*self, None)
                }
            },
            StreamPhase::Streaming => {
                if !self.sent_timeout_warning && near_timeout(total, self.message_timeout_ms) {
                    (
                        StreamProgressTracker { sent_timeout_warning: true, ..*self },
                        msg(timeout_text(secs(total), secs(self.message_timeout_ms)), true),
                    )
                } else {
                    (*self, None)
                }
            },
            StreamPhase::Thinking => {
                if self.thinking_updates_sent == 0 && pe >= self.thinking_first_indicator_after_ms {
                    (StreamProgressTracker { thinking_updates_sent: 1, ..*self }, msg(deep_thinking_text(), false))
                } else if self.thinking_updates_sent > 0 && self.thinking_updates_sent < self.expected_updates(now) {
                    let thought = match self.thinking_started_at_ms {
                        Some(t) => since(now, t),
                        None => 0,
                    };
                    (
                        StreamProgressTracker { thinking_updates_sent: self.expected_updates(now), ..*self },
                        msg(still_thinking_text(secs(thought)), false),
                    )
                } else {
                    (*self, None)
                }
            },
            _ => (*self, None),
        }
    }

    /// A tracker for an interaction starting at `now_ms`, with the given
    /// message timeout and the default thresholds (first-byte warning after
    /// 10 s, slow warning after 30 s, thinking indicator after 15 s, thinking
    /// updates every 30 s).
    pub fn new(message_timeout_ms: u64, now_ms: u64) -> (t: Self)
        ensures
            t == (StreamProgressTracker {
                phase: StreamPhase::Connecting,
                phase_entered_at_ms: now_ms,
                stream_started_at_ms: now_ms,
                thinking_started_at_ms: None,
                first_byte_warning_after_ms: 10_000,
                first_byte_slow_after_ms: 30_000,
                thinking_first_indicator_after_ms: 15_000,
                thinking_update_interval_ms: 30_000,
                message_timeout_ms,
                sent_first_byte_warning: false,
                sent_first_byte_slow: false,
                sent_timeout_warning: false,
                sent_reconnecting: false,
                thinking_updates_sent: 0,
            }),
    {
        StreamProgressTracker {
            phase: StreamPhase::Connecting,
            phase_entered_at_ms: now_ms,
            stream_started_at_ms: now_ms,
            thinking_started_at_ms: None,
            first_byte_warning_after_ms: 10_000,
            first_byte_slow_after_ms: 30_000,
            thinking_first_indicator_after_ms: 15_000,
            thinking_update_interval_ms: 30_000,
            message_timeout_ms,
            sent_first_byte_warning: false,
            sent_first_byte_slow: false,
            sent_timeout_warning: false,
            sent_reconnecting: false,
            thinking_updates_sent: 0,
        }
    }

    /// Enter `new_phase` at `now_ms`: the thinking start time is set on the
    /// first entry into `Thinking`, and the per-phase first-byte flags reset.
    pub fn transition(&mut self, new_phase: StreamPhase, now_ms: u64)
        ensures
            *final(self) == (StreamProgressTracker {
                phase: new_phase,
                phase_entered_at_ms: now_ms,
                thinking_started_at_ms: if new_phase == StreamPhase::Thinking && old(self).thinking_started_at_ms is None {
                    Some(now_ms)
                } else {
                    old(self).thinking_started_at_ms
                },
                sent_first_byte_warning: false,
                sent_first_byte_slow: false,
                ..*old(self)
            }),
    {
        if new_phase == StreamPhase::Thinking && self.thinking_started_at_ms.is_none() {
            self.thinking_started_at_ms = Some(now_ms);
        }
        self.phase = new_phase;
        self.phase_entered_at_ms = now_ms;
        self.sent_first_byte_warning = false;
        self.sent_first_byte_slow = false;
    }

    /// Called when a reconnection attempt starts: a warning the first time only.
    pub fn on_reconnect(&mut self) -> (r: Option<ProgressMessage>)
        ensures
            *final(self) == (StreamProgressTracker { sent_reconnecting: true, ..*old(self) }),
            match r {
                Some(m) => !old(self).sent_reconnecting && m.content@ == reconnect_text() && m.is_warning,
                None => old(self).sent_reconnecting,
            },
    {
        if !self.sent_reconnecting {
            self.sent_reconnecting = true;
            Some(
                ProgressMessage {
                    content: String::from_str(
                        "\u{26a0}\u{fe0f} \u{8fde}\u{63a5}\u{8d85}\u{65f6}\u{ff0c}\u{6b63}\u{5728}\u{5c1d}\u{8bd5}\u{91cd}\u{8fde}...",
                    ),
                    is_warning: true,
                },
            )
        } else {
            None
        }
    }

    /// Poll for a progress message at `now_ms` (call every few seconds).
    pub fn poll(&mut self, now_ms: u64) -> (r: Option<ProgressMessage>)
        ensures
            *final(self) == old(self).poll_spec(now_ms).0,
            match r {
                Some(m) => old(self).poll_spec(now_ms).1 == Some((m.content@, m.is_warning)),
                None => old(self).poll_spec(now_ms).1 is None,
            },
    {
        let pe = if now_ms >= self.phase_entered_at_ms {
            now_ms - self.phase_entered_at_ms
        } else {
            0
        };
        let total = if now_ms >= self.stream_started_at_ms {
            now_ms - self.stream_started_at_ms
        } else {
            0
        };
        match self.phase {
            StreamPhase::WaitingFirstByte => {
                if !self.sent_first_byte_warning && pe >= self.first_byte_warning_after_ms {
                    self.sent_first_byte_warning = true;
                    return Some(
                        ProgressMessage {
                            content: String::from_str(
                                "\u{1f914} \u{6a21}\u{578b}\u{6b63}\u{5728}\u{63a8}\u{7406}\u{4e2d}...",
                            ),
                            is_warning: false,
                        },
                    );
                }
                if !self.sent_first_byte_slow && pe >= self.first_byte_slow_after_ms {
                    self.sent_first_byte_slow = true;
                    let mut t = str_chars(
                        "\u{23f3} \u{54cd}\u{5e94}\u{8f83}\u{6162}\u{ff0c}\u{6b63}\u{5728}\u{7b49}\u{5f85}\u{ff08}\u{5df2}\u{7b49}\u{5f85} ",
                    );
                    push_decimal(&mut t, pe / 1000);
                    push_str(&mut t, "s\u{ff09}...");
                    return Some(ProgressMessage { content: chars_to_string(&t), is_warning: true });
                }
                None
            },
            StreamPhase::Streaming => {
                let near = if self.message_timeout_ms == 0 {
                    total > 0
                } else {
                    (total as u128) * 5 >= (self.message_timeout_ms as u128) * 4
                };
                if !self.sent_timeout_warning && near {
                    self.sent_timeout_warning = true;
                    let mut t = str_chars(
                        "\u{26a0}\u{fe0f} \u{5373}\u{5c06}\u{8d85}\u{65f6}\u{ff08}\u{5df2}\u{7528} ",
                    );
                    push_decimal(&mut t, total / 1000);
                    push_str(&mut t, "s / \u{9650}\u{5236} ");
                    push_decimal(&mut t, self.message_timeout_ms / 1000);
                    push_str(&mut t, "s\u{ff09}...");
                    return Some(ProgressMessage { content: chars_to_string(&t), is_warning: true });
                }
                None
            },
            StreamPhase::Thinking => {
                let thought = match self.thinking_started_at_ms {
                    Some(t) => if now_ms >= t {
                        now_ms - t
                    } else {
                        0
                    },
                    None => 0,
                };
                if self.thinking_updates_sent == 0 && pe >= self.thinking_first_indicator_after_ms {
                    self.thinking_updates_sent = 1;
                    return Some(
                        ProgressMessage {
                            content: String::from_str(
                                "\u{1f914} \u{6a21}\u{578b}\u{6b63}\u{5728}\u{6df1}\u{5ea6}\u{601d}\u{8003}\u{4e2d}...",
                            ),
                            is_warning: false,
                        },
                    );
                }
                let expected: u32 = if self.thinking_update_interval_ms == 0 {
                    1
                } else {
                    let past = if pe >= self.thinking_first_indicator_after_ms {
                        pe - self.thinking_first_indicator_after_ms
                    } else {
                        0
                    };
                    let q = (past / self.thinking_update_interval_ms) as u32;
                    if q == u32::MAX {
                        0
                    } else {
                        q + 1
                    }
                };
                if self.thinking_updates_sent > 0 && self.thinking_updates_sent < expected {
                    self.thinking_updates_sent = expected;
                    let mut t = str_chars(
                        "\u{1f4ad} \u{4ecd}\u{5728}\u{601d}\u{8003}\u{4e2d}... \u{ff08}\u{5df2}\u{601d}\u{8003} ",
                    );
                    push_decimal(&mut t, thought / 1000);
                    push_str(&mut t, "s\u{ff09}");
                    return Some(ProgressMessage { content: chars_to_string(&t), is_warning: false });
                }
                None
            },
            _ => None,
        }
    }

    /// The current phase.
    pub fn phase(&self) -> (p: &StreamPhase)
        ensures
            *p == self.phase,
    {
        &self.phase
    }

    /// Time since the stream started, at `now_ms`.
    pub fn total_elapsed(&self, now_ms: u64) -> (d: u64)
        ensures
            d == self.total_elapsed_spec(now_ms),
    {
        if now_ms >= self.stream_started_at_ms {
            now_ms - self.stream_started_at_ms
        } else {
            0
        }
    }
}

/// While waiting for the first byte, the first-byte warning is sent at most
/// once: right after a poll that sent it, no later poll sends it again.
pub proof fn law_first_byte_warning_once(t: StreamProgressTracker, now1: u64, now2: u64)
    requires
        t.phase == StreamPhase::WaitingFirstByte,
        t.poll_spec(now1).1 == msg(reasoning_text(), false),
    ensures
        t.poll_spec(now1).0.poll_spec(now2).1 != msg(reasoning_text(), false),
{
}

/// The timeout warning is sent at most once: right after a poll that sent
/// it, later polls in the same phase send nothing.
pub proof fn law_timeout_warning_once(t: StreamProgressTracker, now1: u64, now2: u64)
    requires
        t.phase == StreamPhase::Streaming,
        t.poll_spec(now1).1 is Some,
    ensures
        t.poll_spec(now1).0.poll_spec(now2).1 is None,
{
}

} // verus!
