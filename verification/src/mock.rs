//! Deterministic test doubles: an LLM provider that replays preconfigured
//! responses (optionally failing its first calls), and health checks with a
//! fixed status.
//!
//! Waiting out a configured delay is left to the caller (`delay_ms`).

use vstd::prelude::*;
use crate::clock::now_rfc3339;
use crate::session::ToolCall;

verus! {

/// Token usage of a completion.
#[derive(Debug, Clone, Copy, PartialEq, Eq, Structural)]
pub struct Usage {
    pub prompt_tokens: Option<u32>,
    pub completion_tokens: Option<u32>,
    pub total_tokens: Option<u32>,
}

/// A completion returned by a provider.
#[derive(Debug)]
pub struct CompletionResponse {
    pub content: Option<String>,
    pub tool_calls: Option<Vec<ToolCall>>,
    pub usage: Option<Usage>,
    pub finish_reason: Option<String>,
}

/// A response as plain values: content, tool calls, usage, finish reason.
pub type ResponseView = (Option<Seq<char>>, Option<Seq<ToolCall>>, Option<Usage>, Option<Seq<char>>);

pub open spec fn text_view(o: Option<String>) -> Option<Seq<char>> {
    match o {
        Some(s) => Some(s@),
        None => None,
    }
}

impl View for CompletionResponse {
    type V = ResponseView;

    open spec fn view(&self) -> ResponseView {
        (
            text_view(self.content),
            match self.tool_calls {
                Some(v) => Some(v@),
                None => None,
            },
            self.usage,
            text_view(self.finish_reason),
        )
    }
}

/// One streamed chunk of a completion.
#[derive(Debug)]
pub struct CompletionChunk {
    pub delta: Option<String>,
    pub tool_call_deltas: Option<Vec<ToolCall>>,
    pub usage: Option<Usage>,
    pub done: bool,
}

/// The usage reported by the canned text responses: 10 prompt, 5 completion, 15 total.
pub open spec fn canned_usage() -> Usage {
    Usage { prompt_tokens: Some(10), completion_tokens: Some(5), total_tokens: Some(15) }
}

/// A canned text response: the text, no tool calls, the canned usage, `stop`.
pub open spec fn text_response(text: Seq<char>) -> ResponseView {
    (Some(text), None, Some(canned_usage()), Some("stop"@))
}

/// The response given once the configured responses are used up.
pub open spec fn fallback_response() -> ResponseView {
    (Some("default mock response"@), None, None, None)
}

fn opt_string(o: &Option<String>) -> (r: Option<String>)
    ensures
        text_view(r) == text_view(*o),
{
    match o {
        Some(s) => Some(s.clone()),
        None => None,
    }
}

impl CompletionResponse {
    /// A copy of this response.
    pub fn duplicate(&self) -> (r: Self)
        ensures
            r@ == self@,
    {
        CompletionResponse {
            content: opt_string(&self.content),
            tool_calls: match &self.tool_calls {
                Some(v) => {
                    let mut out: Vec<ToolCall> = Vec::new();
                    let mut i: usize = 0;
                    while i < v.len()
                        invariant
                            i <= v.len(),
                            out@ == v@.take(i as int),
                        decreases v.len() - i,
                    {
                        out.push(v[i].duplicate());
                        assert(out@ =~= v@.take(i + 1));
                        i = i + 1;
                    }
                    assert(v@.take(i as int) =~= v@);
                    Some(out)
                },
                None => None,
            },
            usage: self.usage,
            finish_reason: opt_string(&self.finish_reason),
        }
    }

    /// A canned text response.
    pub fn text(text: &str) -> (r: Self)
        ensures
            r@ == text_response(text@),
    {
        CompletionResponse {
            content: Some(String::from_str(text)),
            tool_calls: None,
            usage: Some(Usage { prompt_tokens: Some(10), completion_tokens: Some(5), total_tokens: Some(15) }),
            finish_reason: Some(String::from_str("stop")),
        }
    }
}

pub open spec fn response_views(s: Seq<CompletionResponse>) -> Seq<ResponseView> {
    Seq::new(s.len(), |i: int| s[i]@)
}

/// Mock LLM provider returning deterministic, preconfigured responses.
#[derive(Debug)]
pub struct MockProvider {
    responses: Vec<CompletionResponse>,
    call_count: u32,
    fail_until: u32,
    fail_message: String,
    delay_ms: Option<u64>,
    /// Past the configured responses, the last one is repeated (instead of
    /// the fallback).
    repeat_last: bool,
}

impl MockProvider {
    pub closed spec fn repeats_last(&self) -> bool {
        self.repeat_last
    }

    pub closed spec fn responses_spec(&self) -> Seq<ResponseView> {
        response_views(self.responses@)
    }

    pub closed spec fn calls(&self) -> u32 {
        self.call_count
    }

    pub closed spec fn failing_calls(&self) -> u32 {
        self.fail_until
    }

    pub closed spec fn failure_text(&self) -> Seq<char> {
        self.fail_message@
    }

    pub closed spec fn delay_spec(&self) -> Option<u64> {
        self.delay_ms
    }

    /// What call number `n` returns: an error while `n` is below the number
    /// of failing calls, then the `n`-th configured response, then the fallback.
    pub open spec fn outcome(&self, n: u32) -> Result<ResponseView, Seq<char>> {
        if n < self.failing_calls() {
            Err(
                if self.failure_text().len() == 0 {
                    "transient provider error"@
                } else {
                    self.failure_text()
                },
            )
        } else if n < self.responses_spec().len() {
            Ok(self.responses_spec()[n as int])
        } else if self.repeats_last() && self.responses_spec().len() > 0 {
            Ok(self.responses_spec().last())
        } else {
            Ok(fallback_response())
        }
    }

    fn from_parts(responses: Vec<CompletionResponse>, fail_until: u32, fail_message: String, delay_ms: Option<u64>) -> (p: Self)
        ensures
            p.responses_spec() == response_views(responses@),
            p.calls() == 0,
            p.failing_calls() == fail_until,
            p.failure_text() == fail_message@,
            p.delay_spec() == delay_ms,
            !p.repeats_last(),
    {
        MockProvider { responses, call_count: 0, fail_until, fail_message, delay_ms, repeat_last: false }
    }

    /// A provider returning the same text response on every call.
    pub fn simple(text: &str) -> (p: Self)
        ensures
            p.responses_spec() == seq![text_response(text@)],
            p.calls() == 0,
            p.failing_calls() == 0,
            p.failure_text().len() == 0,
            p.delay_spec() is None,
            p.repeats_last(),
    {
        let mut p = Self::from_response(CompletionResponse::text(text));
        p.repeat_last = true;
        p
    }

    /// A provider returning one text response per call, in order, then the fallback.
    pub fn multi(texts: Vec<&str>) -> (p: Self)
        ensures
            p.responses_spec() == Seq::new(texts@.len(), |i: int| text_response(texts@[i]@)),
            p.calls() == 0,
            p.failing_calls() == 0,
            p.failure_text().len() == 0,
            p.delay_spec() is None,
            !p.repeats_last(),
    {
        let mut responses: Vec<CompletionResponse> = Vec::new();
        let mut i: usize = 0;
        while i < texts.len()
            invariant
                i <= texts.len(),
                response_views(responses@) == Seq::new(i as nat, |j: int| text_response(texts@[j]@)),
            decreases texts.len() - i,
        {
            let ghost before = response_views(responses@);
            let r = CompletionResponse::text(texts[i]);
            responses.push(r);
            assert(response_views(responses@) =~= before.push(r@));
            assert(Seq::new((i + 1) as nat, |j: int| text_response(texts@[j]@)) =~= before.push(r@));
            i = i + 1;
        }
        Self::from_parts(responses, 0, String::new(), None)
    }

    /// A provider returning `response` on its first call, then the fallback.
    pub fn from_response(response: CompletionResponse) -> (p: Self)
        ensures
            p.responses_spec() == seq![response@],
            p.calls() == 0,
            p.failing_calls() == 0,
            p.failure_text().len() == 0,
            p.delay_spec() is None,
            !p.repeats_last(),
    {
        let mut responses: Vec<CompletionResponse> = Vec::new();
        responses.push(response);
        assert(response_views(responses@) =~= seq![response@]);
        Self::from_parts(responses, 0, String::new(), None)
    }

    /// A provider returning the given responses in order, then the fallback.
    pub fn from_responses(responses: Vec<CompletionResponse>) -> (p: Self)
        ensures
            p.responses_spec() == response_views(responses@),
            p.calls() == 0,
            p.failing_calls() == 0,
            p.failure_text().len() == 0,
            p.delay_spec() is None,
            !p.repeats_last(),
    {
        Self::from_parts(responses, 0, String::new(), None)
    }

    /// A provider failing every call with `msg`.
    pub fn always_fail(msg: &str) -> (p: Self)
        ensures
            p.responses_spec().len() == 0,
            p.calls() == 0,
            p.failing_calls() == u32::MAX,
            p.failure_text() == msg@,
            p.delay_spec() is None,
            !p.repeats_last(),
    {
        let r = Self::from_parts(Vec::new(), u32::MAX, String::from_str(msg), None);
        assert(r.responses_spec() =~= Seq::<ResponseView>::empty());
        r
    }

    /// The same provider failing its first `n` calls.
    pub fn with_fail_n(self, n: u32) -> (p: Self)
        ensures
            p.responses_spec() == self.responses_spec(),
            p.calls() == self.calls(),
            p.failing_calls() == n,
            p.failure_text() == self.failure_text(),
            p.delay_spec() == self.delay_spec(),
            p.repeats_last() == self.repeats_last(),
    {
        let mut s = self;
        s.fail_until = n;
        s
    }

    /// The same provider with a delay (milliseconds) before every completion.
    pub fn with_delay(self, delay_ms: u64) -> (p: Self)
        ensures
            p.responses_spec() == self.responses_spec(),
            p.calls() == self.calls(),
            p.failing_calls() == self.failing_calls(),
            p.failure_text() == self.failure_text(),
            p.delay_spec() == Some(delay_ms),
            p.repeats_last() == self.repeats_last(),
    {
        let mut s = self;
        s.delay_ms = Some(delay_ms);
        s
    }

    /// The same provider with a custom failure message.
    pub fn with_fail_message(self, msg: &str) -> (p: Self)
        ensures
            p.responses_spec() == self.responses_spec(),
            p.calls() == self.calls(),
            p.failing_calls() == self.failing_calls(),
            p.failure_text() == msg@,
            p.delay_spec() == self.delay_spec(),
            p.repeats_last() == self.repeats_last(),
    {
        let mut s = self;
        s.fail_message = String::from_str(msg);
        s
    }

    /// Number of completion calls made so far.
    pub fn call_count(&self) -> (n: u32)
        ensures
            n == self.calls(),
    {
        self.call_count
    }

    /// The delay to wait before each completion, in milliseconds.
    pub fn delay_ms(&self) -> (d: Option<u64>)
        ensures
            d == self.delay_spec(),
    {
        self.delay_ms
    }

    /// The provider's name.
    pub fn name(&self) -> (s: &'static str)
        ensures
            s@ == "mock"@,
    {
        "mock"
    }

    /// The provider's default model.
    pub fn default_model(&self) -> (s: &'static str)
        ensures
            s@ == "mock-model"@,
    {
        "mock-model"
    }

    /// Every model is supported.
    pub fn supports_model(&self, model: &str) -> (b: bool)
        ensures
            b,
    {
        true
    }

    /// Answer one completion call: counts the call (the counter wraps
    /// around at `u32::MAX`) and returns `outcome` of its number.
    pub fn complete(&mut self) -> (r: Result<CompletionResponse, String>)
        ensures
            final(self).calls() == (if old(self).calls() == u32::MAX {
                0
            } else {
                (old(self).calls() + 1) as u32
            }),
            final(self).responses_spec() == old(self).responses_spec(),
            final(self).failing_calls() == old(self).failing_calls(),
            final(self).failure_text() == old(self).failure_text(),
            final(self).delay_spec() == old(self).delay_spec(),
            final(self).repeats_last() == old(self).repeats_last(),
            match r {
                Ok(x) => old(self).outcome(old(self).calls()) == Ok::<ResponseView, Seq<char>>(x@),
                Err(e) => old(self).outcome(old(self).calls()) == Err::<ResponseView, Seq<char>>(e@),
            },
    {
        let n = self.call_count;
        self.call_count = if n == u32::MAX {
            0
        } else {
            n + 1
        };
        if n < self.fail_until {
            if self.fail_message.as_str().is_empty() {
                return Err(String::from_str("transient provider error"));
            } else {
                return Err(self.fail_message.clone());
            }
        }
        if (n as usize) < self.responses.len() {
            Ok(self.responses[n as usize].duplicate())
        } else if self.repeat_last && self.responses.len() > 0 {
            Ok(self.responses[self.responses.len() - 1].duplicate())
        } else {
            Ok(
                CompletionResponse {
                    content: Some(String::from_str("default mock response")),
                    tool_calls: None,
                    usage: None,
                    finish_reason: None,
                },
            )
        }
    }

    /// Answer one streaming call: the completion as a single final chunk.
    pub fn complete_stream(&mut self) -> (r: Result<CompletionChunk, String>)
        ensures
            final(self).calls() == (if old(self).calls() == u32::MAX {
                0
            } else {
                (old(self).calls() + 1) as u32
            }),
            final(self).responses_spec() == old(self).responses_spec(),
            final(self).failing_calls() == old(self).failing_calls(),
            final(self).failure_text() == old(self).failure_text(),
            final(self).delay_spec() == old(self).delay_spec(),
            final(self).repeats_last() == old(self).repeats_last(),
            match r {
                Ok(c) => {
                    &&& c.done
                    &&& c.tool_call_deltas is None
                    &&& old(self).outcome(old(self).calls()) matches Ok(x)
                    &&& text_view(c.delta) == old(self).outcome(old(self).calls())->Ok_0.0
                    &&& c.usage == old(self).outcome(old(self).calls())->Ok_0.2
                },
                Err(e) => old(self).outcome(old(self).calls()) == Err::<ResponseView, Seq<char>>(e@),
            },
    {
        match self.complete() {
            Ok(resp) => Ok(CompletionChunk { delta: resp.content, tool_call_deltas: None, usage: resp.usage, done: true }),
            Err(e) => Err(e),
        }
    }
}

/// Builder for mock providers.
#[derive(Debug)]
pub struct MockProviderBuilder {
    responses: Vec<CompletionResponse>,
    fail_until: u32,
    fail_message: String,
    delay_ms: Option<u64>,
}

impl MockProviderBuilder {
    pub closed spec fn responses_spec(&self) -> Seq<ResponseView> {
        response_views(self.responses@)
    }

    pub closed spec fn failing_calls(&self) -> u32 {
        self.fail_until
    }

    pub closed spec fn failure_text(&self) -> Seq<char> {
        self.fail_message@
    }

    pub closed spec fn delay_spec(&self) -> Option<u64> {
        self.delay_ms
    }

    /// No responses, no failing calls, no delay.
    pub fn new() -> (b: Self)
        ensures
            b.responses_spec().len() == 0,
            b.failing_calls() == 0,
            b.failure_text().len() == 0,
            b.delay_spec() is None,
    {
        let b = MockProviderBuilder { responses: Vec::new(), fail_until: 0, fail_message: String::new(), delay_ms: None };
        assert(b.responses_spec() =~= Seq::<ResponseView>::empty());
        b
    }

    /// Append a response.
    pub fn response(self, response: CompletionResponse) -> (b: Self)
        ensures
            b.responses_spec() == self.responses_spec().push(response@),
            b.failing_calls() == self.failing_calls(),
            b.failure_text() == self.failure_text(),
            b.delay_spec() == self.delay_spec(),
    {
        let mut s = self;
        let ghost before = response_views(s.responses@);
        s.responses.push(response);
        assert(response_views(s.responses@) =~= before.push(response@));
        s
    }

    /// Append a canned text response.
    pub fn text(self, text: &str) -> (b: Self)
        ensures
            b.responses_spec() == self.responses_spec().push(text_response(text@)),
            b.failing_calls() == self.failing_calls(),
            b.failure_text() == self.failure_text(),
            b.delay_spec() == self.delay_spec(),
    {
        self.response(CompletionResponse::text(text))
    }

    /// Fail the first `n` calls.
    pub fn fail_n(self, n: u32) -> (b: Self)
        ensures
            b.responses_spec() == self.responses_spec(),
            b.failing_calls() == n,
            b.failure_text() == self.failure_text(),
            b.delay_spec() == self.delay_spec(),
    {
        let mut s = self;
        s.fail_until = n;
        s
    }

    /// Use a custom failure message.
    pub fn fail_message(self, msg: &str) -> (b: Self)
        ensures
            b.responses_spec() == self.responses_spec(),
            b.failing_calls() == self.failing_calls(),
            b.failure_text() == msg@,
            b.delay_spec() == self.delay_spec(),
    {
        let mut s = self;
        s.fail_message = String::from_str(msg);
        s
    }

    /// Delay every completion by `delay_ms` milliseconds.
    pub fn delay(self, delay_ms: u64) -> (b: Self)
        ensures
            b.responses_spec() == self.responses_spec(),
            b.failing_calls() == self.failing_calls(),
            b.failure_text() == self.failure_text(),
            b.delay_spec() == Some(delay_ms),
    {
        let mut s = self;
        s.delay_ms = Some(delay_ms);
        s
    }

    /// The configured provider, with no call made yet.
    pub fn build(self) -> (p: MockProvider)
        ensures
            p.responses_spec() == self.responses_spec(),
            p.calls() == 0,
            p.failing_calls() == self.failing_calls(),
            p.failure_text() == self.failure_text(),
            p.delay_spec() == self.delay_spec(),
            !p.repeats_last(),
    {
        MockProvider::from_parts(self.responses, self.fail_until, self.fail_message, self.delay_ms)
    }
}

impl Default for MockProviderBuilder {
    fn default() -> (b: Self)
        ensures
            b.responses_spec().len() == 0,
            b.failing_calls() == 0,
            b.failure_text().len() == 0,
            b.delay_spec() is None,
    {
        Self::new()
    }
}

// ---------------------------------------------------------------------------
// Health checks
// ---------------------------------------------------------------------------

/// Health of a component.
#[derive(Debug, Clone, Copy, PartialEq, Eq, Structural)]
pub enum CheckStatus {
    Healthy,
    Degraded,
    Unhealthy,
}

/// A health report.
#[derive(Debug)]
pub struct HealthCheckResult {
    pub component: String,
    pub status: CheckStatus,
    pub message: String,
    /// When the report was made (RFC 3339).
    pub timestamp: String,
}

/// A health check with a fixed healthy/unhealthy status.
#[derive(Debug)]
pub struct MockCheck {
    name: String,
    healthy: bool,
}

impl MockCheck {
    pub closed spec fn name_spec(&self) -> Seq<char> {
        self.name@
    }

    pub closed spec fn healthy_spec(&self) -> bool {
        self.healthy
    }

    pub fn new(name: &str, healthy: bool) -> (c: Self)
        ensures
            c.name_spec() == name@,
            c.healthy_spec() == healthy,
    {
        MockCheck { name: String::from_str(name), healthy }
    }

    pub fn healthy(name: &str) -> (c: Self)
        ensures
            c.name_spec() == name@,
            c.healthy_spec(),
    {
        Self::new(name, true)
    }

    pub fn unhealthy(name: &str) -> (c: Self)
        ensures
            c.name_spec() == name@,
            !c.healthy_spec(),
    {
        Self::new(name, false)
    }

    /// The checked component's name.
    pub fn component_name(&self) -> (s: &str)
        ensures
            s@ == self.name_spec(),
    {
        self.name.as_str()
    }

    /// The report: healthy with message `ok`, or unhealthy with `failing`,
    /// stamped with the current time.
    pub fn report_health(&self) -> (r: HealthCheckResult)
        ensures
            r.component@ == self.name_spec(),
            r.status == (if self.healthy_spec() {
                CheckStatus::Healthy
            } else {
                CheckStatus::Unhealthy
            }),
            r.message@ == (if self.healthy_spec() {
                "ok"@
            } else {
                "failing"@
            }),
            r.timestamp@.len() > 0,
    {
        HealthCheckResult {
            component: self.name.clone(),
            status: if self.healthy {
                CheckStatus::Healthy
            } else {
                CheckStatus::Unhealthy
            },
            message: if self.healthy {
                String::from_str("ok")
            } else {
                String::from_str("failing")
            },
            timestamp: now_rfc3339(),
        }
    }
}

/// A health check reporting a fixed status and message.
#[derive(Debug)]
pub struct MockHealthCheck {
    component: String,
    status: CheckStatus,
    message: String,
}

impl MockHealthCheck {
    pub closed spec fn component_spec(&self) -> Seq<char> {
        self.component@
    }

    pub closed spec fn status_spec(&self) -> CheckStatus {
        self.status
    }

    pub closed spec fn message_spec(&self) -> Seq<char> {
        self.message@
    }

    pub fn healthy(component: &str) -> (c: Self)
        ensures
            c.component_spec() == component@,
            c.status_spec() == CheckStatus::Healthy,
            c.message_spec() == "ok"@,
    {
        MockHealthCheck { component: String::from_str(component), status: CheckStatus::Healthy, message: String::from_str("ok") }
    }

    pub fn unhealthy(component: &str, message: &str) -> (c: Self)
        ensures
            c.component_spec() == component@,
            c.status_spec() == CheckStatus::Unhealthy,
            c.message_spec() == message@,
    {
        MockHealthCheck {
            component: String::from_str(component),
            status: CheckStatus::Unhealthy,
            message: String::from_str(message),
        }
    }

    pub fn component_name(&self) -> (s: &str)
        ensures
            s@ == self.component_spec(),
    {
        self.component.as_str()
    }

    /// The fixed report, stamped with the current time.
    pub fn report_health(&self) -> (r: HealthCheckResult)
        ensures
            r.component@ == self.component_spec(),
            r.status == self.status_spec(),
            r.message@ == self.message_spec(),
            r.timestamp@.len() > 0,
    {
        HealthCheckResult {
            component: self.component.clone(),
            status: self.status,
            message: self.message.clone(),
            timestamp: now_rfc3339(),
        }
    }
}

} // verus!
