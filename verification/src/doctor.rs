//! The decisions of the `doctor` diagnostics: what each check probes, how a
//! probe's outcome is reported and counted, and the closing summary. The
//! probes themselves (file reads, TCP connects, HTTP requests) run around
//! these.

use vstd::prelude::*;
use crate::commands::count_severity;
use crate::commands::lemma_count_le;
use crate::commands::Severity;
use crate::commands::ValidationFinding;
use crate::config::Config;
use crate::text::chars_to_string;
use crate::text::decimal;
use crate::text::find_char;
use crate::text::find_char_exec;
use crate::text::lemma_find_char_props;
use crate::text::push_decimal;
use crate::text::push_str;
use crate::text::push_string;
use crate::text::str_chars;
use crate::text::sub_vec;
use crate::text::views;

verus! {

/// Error and warning counts of a doctor run.
#[derive(Debug)]
pub struct DoctorTally {
    pub errors: usize,
    pub warnings: usize,
}

/// What the Telegram check does.
#[derive(Debug)]
pub enum TelegramProbe {
    /// No section, or no token: "Not configured — skipping".
    NotConfigured,
    /// A token but the channel is disabled: "Telegram disabled in config — skipping".
    Disabled,
    /// Call `getMe` at `url`, through `proxy` when one is set.
    Probe { url: String, proxy: Option<String> },
}

/// What the WebSocket check does.
#[derive(Debug)]
pub enum WebSocketProbe {
    /// The channel is enabled: a failed connect is an error.
    Enabled { addr: String },
    /// The channel is disabled or absent: only report whether anything listens.
    Disabled { addr: String },
}

/// The summary lines closing a run.
pub open spec fn summary_of(errors: nat, warnings: nat) -> Seq<Seq<char>> {
    if errors == 0 && warnings == 0 {
        seq!["All checks passed."@]
    } else {
        (if errors > 0 {
            seq![decimal(errors) + " error(s) found."@]
        } else {
            Seq::empty()
        }) + (if warnings > 0 {
            seq![decimal(warnings) + " warning(s) found."@]
        } else {
            Seq::empty()
        })
    }
}

/// The summary printed after all checks.
pub fn doctor_summary(tally: &DoctorTally) -> (v: Vec<String>)
    ensures
        views(v@) == summary_of(tally.errors as nat, tally.warnings as nat),
{
    let mut v: Vec<String> = Vec::new();
    if tally.errors == 0 && tally.warnings == 0 {
        v.push(String::from_str("All checks passed."));
    } else {
        if tally.errors > 0 {
            let mut s: Vec<char> = Vec::new();
            push_decimal(&mut s, tally.errors as u64);
            push_str(&mut s, " error(s) found.");
            v.push(chars_to_string(&s));
        }
        if tally.warnings > 0 {
            let mut s: Vec<char> = Vec::new();
            push_decimal(&mut s, tally.warnings as u64);
            push_str(&mut s, " warning(s) found.");
            v.push(chars_to_string(&s));
        }
    }
    assert(views(v@) =~= summary_of(tally.errors as nat, tally.warnings as nat));
    v
}

/// The `getMe` URL of a bot token.
pub open spec fn get_me_url(token: Seq<char>) -> Seq<char> {
    "https://api.telegram.org/bot"@ + token + "/getMe"@
}

/// Decide the Telegram check: probe when the section is enabled and has a
/// token; report it disabled when it has a token but is off; else skip it as
/// not configured.
pub fn telegram_probe(config: &Config) -> (p: TelegramProbe)
    ensures
        match config.channels.telegram {
            Some(t) => if t.token@.len() > 0 && t.enabled {
                p matches TelegramProbe::Probe { url, proxy } && url@ == get_me_url(t.token@) && proxy == t.proxy
            } else if t.token@.len() > 0 {
                p is Disabled
            } else {
                p is NotConfigured
            },
            None => p is NotConfigured,
        },
{
    match &config.channels.telegram {
        Some(t) => {
            if !t.token.as_str().is_empty() && t.enabled {
                let mut u = str_chars("https://api.telegram.org/bot");
                push_string(&mut u, &t.token);
                push_str(&mut u, "/getMe");
                TelegramProbe::Probe { url: chars_to_string(&u), proxy: t.proxy.clone() }
            } else if !t.token.as_str().is_empty() {
                TelegramProbe::Disabled
            } else {
                TelegramProbe::NotConfigured
            }
        },
        None => TelegramProbe::NotConfigured,
    }
}

/// An HTTP status in the success range.
pub open spec fn is_success(status: u16) -> bool {
    200 <= status <= 299
}

/// The report of a `getMe` call that answered with a non-success status
/// (`status_text` is how the status is displayed, e.g. `404 Not Found`).
pub open spec fn http_failure_line(status: u16, status_text: Seq<char>) -> Seq<char> {
    if status == 401 {
        "FAIL — unauthorized (invalid bot token)"@
    } else {
        "FAIL — HTTP "@ + status_text
    }
}

/// Report a `getMe` answer: `None` for a success status, else the failure
/// line, and the error count raised by one.
pub fn telegram_status_report(tally: &mut DoctorTally, status: u16, status_text: &str) -> (r: Option<String>)
    requires
        old(tally).errors < usize::MAX,
    ensures
        is_success(status) ==> r is None && *final(tally) == *old(tally),
        !is_success(status) ==> (r matches Some(line) && line@ == http_failure_line(status, status_text@))
            && final(tally).errors == old(tally).errors + 1 && final(tally).warnings == old(tally).warnings,
{
    if 200 <= status && status <= 299 {
        return None;
    }
    tally.errors = tally.errors + 1;
    if status == 401 {
        Some(String::from_str("FAIL — unauthorized (invalid bot token)"))
    } else {
        let mut s = str_chars("FAIL — HTTP ");
        push_str(&mut s, status_text);
        Some(chars_to_string(&s))
    }
}

/// The first line of a message, as `str::lines` gives it: up to the first
/// `\n`, without a `\r` just before it; the whole message when it has no
/// line break.
pub open spec fn first_line(s: Seq<char>) -> Seq<char> {
    match find_char(s, '\n', 0, s.len() as int) {
        Some(i) => if i > 0 && s[i - 1] == '\r' {
            s.take(i - 1)
        } else {
            s.take(i)
        },
        None => s,
    }
}

/// Computes `first_line`: the concise form of an error message.
pub fn first_line_of(msg: &str) -> (r: String)
    ensures
        r@ == first_line(msg@),
{
    let c = str_chars(msg);
    proof {
        lemma_find_char_props(c@, '\n', 0, c@.len() as int);
    }
    match find_char_exec(&c, '\n', 0, c.len()) {
        Some(i) => {
            let end = if i > 0 && c[i - 1] == '\r' {
                i - 1
            } else {
                i
            };
            let t = sub_vec(&c, 0, end);
            assert(t@ =~= c@.take(end as int));
            chars_to_string(&t)
        },
        None => String::from_str(msg),
    }
}

/// The failure line of a probe whose call returned an error, and the error
/// count raised by one.
pub fn probe_error_report(tally: &mut DoctorTally, msg: &str) -> (r: String)
    requires
        old(tally).errors < usize::MAX,
    ensures
        r@ == "FAIL — "@ + first_line(msg@),
        final(tally).errors == old(tally).errors + 1,
        final(tally).warnings == old(tally).warnings,
{
    tally.errors = tally.errors + 1;
    let first = first_line_of(msg);
    let mut s = str_chars("FAIL — ");
    push_string(&mut s, &first);
    chars_to_string(&s)
}

/// The listen address used when none is configured.
pub open spec fn default_ws_addr() -> Seq<char> {
    "127.0.0.1:8090"@
}

/// Decide the WebSocket check: the configured address, probed as an error
/// source only when the channel is enabled.
pub fn websocket_probe(config: &Config) -> (p: WebSocketProbe)
    ensures
        match config.channels.websocket {
            Some(ws) => if ws.enabled {
                p matches WebSocketProbe::Enabled { addr } && addr@ == ws.listen_addr@
            } else {
                p matches WebSocketProbe::Disabled { addr } && addr@ == ws.listen_addr@
            },
            None => p matches WebSocketProbe::Disabled { addr } && addr@ == default_ws_addr(),
        },
{
    match &config.channels.websocket {
        Some(ws) => if ws.enabled {
            WebSocketProbe::Enabled { addr: ws.listen_addr.clone() }
        } else {
            WebSocketProbe::Disabled { addr: ws.listen_addr.clone() }
        },
        None => WebSocketProbe::Disabled { addr: String::from_str("127.0.0.1:8090") },
    }
}

/// The model a provider is probed with: its own default, else the agent's.
pub fn probe_model(provider_default: &str, agent_model: &str) -> (r: String)
    ensures
        r@ == if provider_default@.len() == 0 {
            agent_model@
        } else {
            provider_default@
        },
{
    if provider_default.is_empty() {
        String::from_str(agent_model)
    } else {
        String::from_str(provider_default)
    }
}

/// At most the first 30 characters of a reply, or `(empty)` when there is none.
pub fn reply_preview(content: &Option<String>) -> (r: String)
    ensures
        r@ == match content {
            Some(c) => if c@.len() <= 30 {
                c@
            } else {
                c@.take(30)
            },
            None => "(empty)"@,
        },
{
    match content {
        Some(c) => {
            let v = str_chars(c.as_str());
            if v.len() <= 30 {
                String::from_str(c.as_str())
            } else {
                let t = sub_vec(&v, 0, 30);
                assert(t@ =~= v@.take(30));
                chars_to_string(&t)
            }
        },
        None => String::from_str("(empty)"),
    }
}

/// How a schema finding is reported.
pub open spec fn finding_line(f: ValidationFinding) -> Seq<char> {
    match f.severity {
        Severity::Error => "  Schema Error: ["@ + f.path@ + "] "@ + f.message@ + " — FAIL"@,
        Severity::Warning => "  Schema Warning: ["@ + f.path@ + "] "@ + f.message@ + " — WARN"@,
    }
}

/// The report of the schema validation: "  Schema:         pass" when there
/// are no findings, else one line per finding; and the tally raised by the
/// number of errors and of warnings.
pub fn schema_report(tally: &mut DoctorTally, findings: &Vec<ValidationFinding>) -> (v: Vec<String>)
    requires
        old(tally).errors + findings@.len() <= usize::MAX,
        old(tally).warnings + findings@.len() <= usize::MAX,
    ensures
        final(tally).errors == old(tally).errors + count_severity(findings@, Severity::Error),
        final(tally).warnings == old(tally).warnings + count_severity(findings@, Severity::Warning),
        findings@.len() == 0 ==> views(v@) == seq!["  Schema:         pass"@],
        findings@.len() > 0 ==> views(v@) == findings@.map_values(|f: ValidationFinding| finding_line(f)),
{
    let ghost e0 = tally.errors;
    let ghost w0 = tally.warnings;
    let mut v: Vec<String> = Vec::new();
    let mut i: usize = 0;
    while i < findings.len()
        invariant
            i <= findings@.len(),
            e0 + findings@.len() <= usize::MAX,
            w0 + findings@.len() <= usize::MAX,
            tally.errors == e0 + count_severity(findings@.take(i as int), Severity::Error),
            tally.warnings == w0 + count_severity(findings@.take(i as int), Severity::Warning),
            views(v@) == findings@.take(i as int).map_values(|f: ValidationFinding| finding_line(f)),
        decreases findings.len() - i,
    {
        let f = &findings[i];
        proof {
            assert(findings@.take(i + 1).drop_last() =~= findings@.take(i as int));
            lemma_count_le(findings@.take(i + 1), Severity::Error);
            lemma_count_le(findings@.take(i + 1), Severity::Warning);
        }
        let mut s: Vec<char>;
        match f.severity {
            Severity::Error => {
                tally.errors = tally.errors + 1;
                s = str_chars("  Schema Error: [");
            },
            Severity::Warning => {
                tally.warnings = tally.warnings + 1;
                s = str_chars("  Schema Warning: [");
            },
        }
        push_string(&mut s, &f.path);
        push_str(&mut s, "] ");
        push_string(&mut s, &f.message);
        match f.severity {
            Severity::Error => push_str(&mut s, " — FAIL"),
            Severity::Warning => push_str(&mut s, " — WARN"),
        }
        let ghost before = views(v@);
        v.push(chars_to_string(&s));
        assert(views(v@) =~= findings@.take(i + 1).map_values(|f: ValidationFinding| finding_line(f))) by {
            assert(views(v@) =~= before.push(finding_line(findings@[i as int])));
        }
        i = i + 1;
    }
    assert(findings@.take(i as int) =~= findings@);
    if findings.len() == 0 {
        v.push(String::from_str("  Schema:         pass"));
        assert(views(v@) =~= seq!["  Schema:         pass"@]);
    }
    v
}

/// The providers check found no provider: one warning.
pub fn no_providers_report(tally: &mut DoctorTally) -> (r: String)
    requires
        old(tally).warnings < usize::MAX,
    ensures
        r@ == "  No providers configured."@,
        final(tally).warnings == old(tally).warnings + 1,
        final(tally).errors == old(tally).errors,
{
    tally.warnings = tally.warnings + 1;
    String::from_str("  No providers configured.")
}

/// What JSON text holds at a JSON pointer: nothing when the text is not JSON;
/// otherwise the string found there, if the pointer leads to a string.
pub uninterp spec fn json_string_at(body: Seq<char>, pointer: Seq<char>) -> Option<Option<Seq<char>>>;

/// Parse `body` as JSON (`serde_json::from_str::<Value>`) and read the string
/// at `pointer` (`Value::pointer`, kept only when it is a `Value::String`).
#[verifier::external_body]
fn json_text_at(body: &str, pointer: &str) -> (r: Option<Option<String>>)
    ensures
        match r {
            None => json_string_at(body@, pointer@) is None,
            Some(None) => json_string_at(body@, pointer@) == Some(None::<Seq<char>>),
            Some(Some(s)) => json_string_at(body@, pointer@) == Some(Some(s@)),
        },
{
    match serde_json::from_str::<serde_json::Value>(body) {
        Ok(v) => Some(match v.pointer(pointer) {
            Some(serde_json::Value::String(s)) => Some(s.clone()),
            _ => None,
        }),
        Err(_) => None,
    }
}

/// The bot named by a successful `getMe` answer: `None` when the body is not
/// JSON; otherwise the string at `/result/username`, or `unknown`.
pub open spec fn bot_name(body: Seq<char>) -> Option<Seq<char>> {
    match json_string_at(body, "/result/username"@) {
        None => None,
        Some(Some(u)) => Some(u),
        Some(None) => Some("unknown"@),
    }
}

/// Computes `bot_name`.
pub fn bot_username(body: &str) -> (r: Option<String>)
    ensures
        match r {
            Some(u) => bot_name(body@) == Some(u@),
            None => bot_name(body@) is None,
        },
{
    match json_text_at(body, "/result/username") {
        None => None,
        Some(Some(u)) => Some(u),
        Some(None) => Some(String::from_str("unknown")),
    }
}

} // verus!
