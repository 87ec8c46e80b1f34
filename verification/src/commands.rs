//! Built-in slash commands handled by the channels before a message reaches
//! the message bus, so that `/validate` works even when the LLM provider is
//! misconfigured.
//!
//! The handlers take the outcome of loading the configuration (the loaded
//! [`Config`] or the loader's error text) and the validator's findings, and
//! produce the reply text and the inline keyboard to attach.

use vstd::prelude::*;
use crate::config::ChannelToggle;
use crate::config::TelegramConfig;
use crate::config::ChannelsConfig;
use crate::config::Config;
use crate::config::CustomProvider;
use crate::config::ProvidersConfig;
use crate::keyboard::built_rows;
use crate::keyboard::pagination_row;
use crate::keyboard::ButtonView;
use crate::keyboard::InlineKeyboardBuilder;
use crate::keyboard::InlineKeyboardMarkup;
use crate::text::ascii_lower;
use crate::text::char_ascii_lower;
use crate::text::chars_to_string;
use crate::text::decimal;
use crate::text::join;
use crate::text::push_decimal;
use crate::text::push_if;
use crate::text::push_joined;
use crate::text::push_str;
use crate::text::push_string;
use crate::text::skip_non_ws;
use crate::text::skip_non_ws_exec;
use crate::text::skip_ws;
use crate::text::skip_ws_back;
use crate::text::is_ws;
use crate::text::skip_ws_back_exec;
use crate::text::skip_ws_exec;
use crate::text::str_chars;
use crate::text::trim;
use crate::text::views;
use crate::text::lemma_skip_ws_bounds;
use crate::text::lemma_skip_ws_back_bounds;

verus! {

// ---------------------------------------------------------------------------
// Command response
// ---------------------------------------------------------------------------

/// Result of handling a built-in command: the text to send and, for
/// platforms that support it (Telegram), an inline keyboard to attach.
#[derive(Debug, Clone)]
pub struct CommandResponse {
    pub text: String,
    pub keyboard: Option<InlineKeyboardMarkup>,
}

/// The view of an optional keyboard.
pub open spec fn keyboard_view(k: Option<InlineKeyboardMarkup>) -> Option<Seq<Seq<ButtonView>>> {
    match k {
        Some(m) => Some(m@),
        None => None,
    }
}

impl View for CommandResponse {
    type V = (Seq<char>, Option<Seq<Seq<ButtonView>>>);

    open spec fn view(&self) -> (Seq<char>, Option<Seq<Seq<ButtonView>>>) {
        (self.text@, keyboard_view(self.keyboard))
    }
}

// ---------------------------------------------------------------------------
// Command matching
// ---------------------------------------------------------------------------

/// The part of `s` before its first `@` (all of `s` when it has none).
pub open spec fn before_at(s: Seq<char>, i: int) -> Seq<char>
    decreases s.len() - i,
{
    if i < 0 || i >= s.len() {
        s
    } else if s[i] == '@' {
        s.subrange(0, i)
    } else {
        before_at(s, i + 1)
    }
}

/// The first whitespace-separated word of `s` (all of `s` when it has none).
pub open spec fn first_word(s: Seq<char>) -> Seq<char> {
    let a = skip_ws(s, 0);
    if a >= s.len() {
        s
    } else {
        s.subrange(a, skip_non_ws(s, a))
    }
}

/// ASCII case-insensitive equality.
pub open spec fn eq_ignore_ascii_case(a: Seq<char>, b: Seq<char>) -> bool {
    a.len() == b.len() && forall|i: int| 0 <= i < a.len() ==> ascii_lower(a[i]) == ascii_lower(b[i])
}

/// `text`, trimmed, is a slash command whose name (before any `@bot` mention
/// and any argument) equals `command`, ignoring ASCII case.
pub open spec fn is_command(text: Seq<char>, command: Seq<char>) -> bool {
    let t = trim(text);
    t.len() > 0 && t[0] == '/' && eq_ignore_ascii_case(
        first_word(before_at(t.subrange(1, t.len() as int), 0)),
        command,
    )
}

fn before_at_len(s: &Vec<char>) -> (r: usize)
    ensures
        s@.subrange(0, r as int) == before_at(s@, 0),
        r <= s.len(),
{
    let mut i: usize = 0;
    while i < s.len() && s[i] != '@'
        invariant
            i <= s.len(),
            before_at(s@, 0) == before_at(s@, i as int),
        decreases s.len() - i,
    {
        i = i + 1;
    }
    if i >= s.len() {
        assert(s@.subrange(0, i as int) =~= s@);
    }
    i
}

fn eq_ignore_ascii_case_exec(a: &Vec<char>, b: &Vec<char>) -> (r: bool)
    ensures
        r == eq_ignore_ascii_case(a@, b@),
{
    if a.len() != b.len() {
        return false;
    }
    let mut i: usize = 0;
    while i < a.len()
        invariant
            a.len() == b.len(),
            i <= a.len(),
            forall|k: int| 0 <= k < i ==> ascii_lower(a@[k]) == ascii_lower(b@[k]),
        decreases a.len() - i,
    {
        if char_ascii_lower(a[i]) != char_ascii_lower(b[i]) {
            return false;
        }
        i = i + 1;
    }
    true
}

/// Check whether `text` matches the slash command `command`: exact
/// (`/validate`), any ASCII case (`/VALIDATE`), with a Telegram group mention
/// (`/validate@MyBot`) or with trailing arguments (`/validate --verbose`).
pub fn matches_command(text: &str, command: &str) -> (r: bool)
    ensures
        r == is_command(text@, command@),
{
    let s = str_chars(text);
    let a = skip_ws_exec(&s, 0);
    let b = skip_ws_back_exec(&s, a, s.len());
    proof {
        lemma_skip_ws_bounds(s@, 0);
        lemma_skip_ws_back_bounds(s@, a as int, s@.len() as int);
    }
    let ghost t = s@.subrange(a as int, b as int);
    assert(t == trim(text@));
    if a >= b || s[a] != '/' {
        return false;
    }
    let mut rest: Vec<char> = Vec::new();
    crate::text::push_all(&mut rest, &s, a + 1, b);
    assert(rest@ =~= t.subrange(1, t.len() as int));
    let n = before_at_len(&rest);
    let mut part: Vec<char> = Vec::new();
    crate::text::push_all(&mut part, &rest, 0, n);
    assert(part@ =~= before_at(rest@, 0));
    let ws = skip_ws_exec(&part, 0);
    let word: Vec<char> = if ws >= part.len() {
        part
    } else {
        let we = skip_non_ws_exec(&part, ws);
        let mut w: Vec<char> = Vec::new();
        crate::text::push_all(&mut w, &part, ws, we);
        assert(w@ =~= part@.subrange(ws as int, we as int));
        w
    };
    assert(word@ == first_word(before_at(t.subrange(1, t.len() as int), 0)));
    let cmd = str_chars(command);
    eq_ignore_ascii_case_exec(&word, &cmd)
}

// ---------------------------------------------------------------------------
// Validation findings
// ---------------------------------------------------------------------------

/// Severity of a validation finding.
#[derive(Debug, Clone, Copy, PartialEq, Eq, Structural)]
pub enum Severity {
    Error,
    Warning,
}

/// One finding of the configuration validator.
#[derive(Debug, Clone)]
pub struct ValidationFinding {
    pub severity: Severity,
    /// Dotted path of the offending setting.
    pub path: String,
    pub message: String,
}

/// `[SEVERITY] path: message`.
pub open spec fn finding_text(f: ValidationFinding) -> Seq<char> {
    let tag = match f.severity {
        Severity::Error => "[ERROR] "@,
        Severity::Warning => "[WARNING] "@,
    };
    tag + f.path@ + ": "@ + f.message@
}

/// Number of findings of severity `sev`.
pub open spec fn count_severity(f: Seq<ValidationFinding>, sev: Severity) -> nat
    decreases f.len(),
{
    if f.len() == 0 {
        0
    } else {
        count_severity(f.drop_last(), sev) + (if f.last().severity == sev {
            1nat
        } else {
            0nat
        })
    }
}

/// One indented line per finding of severity `sev`, in order.
pub open spec fn finding_lines(f: Seq<ValidationFinding>, sev: Severity) -> Seq<char>
    decreases f.len(),
{
    if f.len() == 0 {
        Seq::empty()
    } else {
        finding_lines(f.drop_last(), sev) + (if f.last().severity == sev {
            "  "@ + finding_text(f.last()) + "\n"@
        } else {
            Seq::empty()
        })
    }
}

/// At most every finding has a given severity.
pub proof fn lemma_count_le(f: Seq<ValidationFinding>, sev: Severity)
    ensures
        count_severity(f, sev) <= f.len(),
    decreases f.len(),
{
    if f.len() > 0 {
        lemma_count_le(f.drop_last(), sev);
    }
}

/// Format a single finding as `[SEVERITY] path: message`.
pub fn format_finding(f: &ValidationFinding) -> (s: String)
    ensures
        s@ == finding_text(*f),
{
    let mut out: Vec<char> = Vec::new();
    match f.severity {
        Severity::Error => push_str(&mut out, "[ERROR] "),
        Severity::Warning => push_str(&mut out, "[WARNING] "),
    }
    push_string(&mut out, &f.path);
    push_str(&mut out, ": ");
    push_string(&mut out, &f.message);
    assert(out@ =~= finding_text(*f));
    chars_to_string(&out)
}

/// Count the findings of one severity and append their lines.
fn collect_findings(out: &mut Vec<char>, findings: &[ValidationFinding], sev: Severity) -> (n: usize)
    ensures
        final(out)@ == old(out)@ + finding_lines(findings@, sev),
        n as nat == count_severity(findings@, sev),
{
    let ghost start = out@;
    let mut n: usize = 0;
    let mut i: usize = 0;
    while i < findings.len()
        invariant
            i <= findings.len(),
            out@ == start + finding_lines(findings@.take(i as int), sev),
            n as nat == count_severity(findings@.take(i as int), sev),
            n <= i,
        decreases findings.len() - i,
    {
        let ghost pre = findings@.take(i as int);
        let ghost nxt = findings@.take(i + 1);
        assert(nxt.drop_last() =~= pre);
        assert(nxt.last() == findings@[i as int]);
        let f = &findings[i];
        if f.severity == sev {
            let line = format_finding(f);
            push_str(out, "  ");
            push_string(out, &line);
            push_str(out, "\n");
            n = n + 1;
        }
        assert(out@ =~= start + finding_lines(nxt, sev));
        i = i + 1;
    }
    assert(findings@.take(findings.len() as int) =~= findings@);
    n
}

// ---------------------------------------------------------------------------
// Configuration summary
// ---------------------------------------------------------------------------

pub open spec fn opt_item(present: bool, name: Seq<char>) -> Seq<Seq<char>> {
    if present {
        seq![name]
    } else {
        Seq::empty()
    }
}

/// Names of the configured built-in providers, in a fixed order.
pub open spec fn builtin_provider_names(p: ProvidersConfig) -> Seq<Seq<char>> {
    Seq::<Seq<char>>::empty() + opt_item(p.anthropic is Some, "anthropic"@) + opt_item(p.openai is Some, "openai"@) + opt_item(
        p.openrouter is Some,
        "openrouter"@,
    ) + opt_item(p.ollama is Some, "ollama"@) + opt_item(p.deepseek is Some, "deepseek"@)
        + opt_item(p.gemini is Some, "gemini"@) + opt_item(p.groq is Some, "groq"@) + opt_item(
        p.moonshot is Some,
        "moonshot"@,
    ) + opt_item(p.minimax is Some, "minimax"@) + opt_item(p.azure_openai is Some, "azure_openai"@)
        + opt_item(p.github_copilot is Some, "github_copilot"@) + opt_item(
        p.openai_codex is Some,
        "openai_codex"@,
    )
}

pub open spec fn custom_names(cs: Seq<CustomProvider>) -> Seq<Seq<char>> {
    Seq::new(cs.len(), |i: int| cs[i].name@)
}

/// The list itself, or `(none)` when it is empty.
pub open spec fn or_none(l: Seq<Seq<char>>) -> Seq<Seq<char>> {
    if l.len() == 0 {
        seq!["(none)"@]
    } else {
        l
    }
}

/// Providers shown in summaries: the built-in ones, then the custom ones.
pub open spec fn provider_list(c: Config) -> Seq<Seq<char>> {
    or_none(builtin_provider_names(c.providers) + custom_names(c.custom_providers@))
}

/// Whether a Telegram section is enabled, when there is one.
pub open spec fn telegram_flag(t: Option<TelegramConfig>) -> Option<bool> {
    match t {
        Some(x) => Some(x.enabled),
        None => None,
    }
}

/// Whether a channel section is enabled, when there is one.
pub open spec fn toggle_flag(t: Option<ChannelToggle>) -> Option<bool> {
    match t {
        Some(x) => Some(x.enabled),
        None => None,
    }
}

pub open spec fn toggle_item(t: Option<bool>, name: Seq<char>) -> Seq<Seq<char>> {
    match t {
        Some(enabled) => seq![name + " ("@ + (if enabled {
            "enabled"@
        } else {
            "disabled"@
        }) + ")"@],
        None => Seq::empty(),
    }
}

/// Channels shown in summaries, in a fixed order.
pub open spec fn channel_list(c: ChannelsConfig) -> Seq<Seq<char>> {
    or_none(
        Seq::<Seq<char>>::empty() + toggle_item(telegram_flag(c.telegram), "telegram"@) + toggle_item(toggle_flag(c.discord), "discord"@) + opt_item(
            c.slack,
            "slack"@,
        ) + opt_item(c.matrix, "matrix"@) + opt_item(c.whatsapp, "whatsapp"@) + opt_item(
            c.email,
            "email"@,
        ) + opt_item(c.dingtalk, "dingtalk"@) + opt_item(c.feishu, "feishu"@) + opt_item(
            c.wecom,
            "wecom"@,
        ) + opt_item(c.weixin, "weixin"@) + opt_item(c.qq, "qq"@) + opt_item(c.mochat, "mochat"@),
    )
}

/// The configured name, or `default` when there is none.
pub open spec fn name_or(n: Option<String>, default: Seq<char>) -> Seq<char> {
    match n {
        Some(s) => s@,
        None => default,
    }
}

fn push_name_or(out: &mut Vec<char>, n: &Option<String>, default: &str)
    ensures
        final(out)@ == old(out)@ + name_or(*n, default@),
{
    match n {
        Some(s) => push_string(out, s),
        None => push_str(out, default),
    }
}

fn provider_names(c: &Config) -> (v: Vec<String>)
    ensures
        views(v@) == provider_list(*c),
{
    let p = &c.providers;
    let mut v: Vec<String> = Vec::new();
    assert(views(v@) =~= Seq::<Seq<char>>::empty());
    push_if(&mut v, p.anthropic.is_some(), "anthropic");
    push_if(&mut v, p.openai.is_some(), "openai");
    push_if(&mut v, p.openrouter.is_some(), "openrouter");
    push_if(&mut v, p.ollama.is_some(), "ollama");
    push_if(&mut v, p.deepseek.is_some(), "deepseek");
    push_if(&mut v, p.gemini.is_some(), "gemini");
    push_if(&mut v, p.groq.is_some(), "groq");
    push_if(&mut v, p.moonshot.is_some(), "moonshot");
    push_if(&mut v, p.minimax.is_some(), "minimax");
    push_if(&mut v, p.azure_openai.is_some(), "azure_openai");
    push_if(&mut v, p.github_copilot.is_some(), "github_copilot");
    push_if(&mut v, p.openai_codex.is_some(), "openai_codex");
    let ghost builtin = views(v@);
    assert(builtin == builtin_provider_names(*p));
    assert(builtin + custom_names(c.custom_providers@.take(0)) =~= builtin);
    let mut i: usize = 0;
    while i < c.custom_providers.len()
        invariant
            i <= c.custom_providers.len(),
            views(v@) == builtin + custom_names(c.custom_providers@.take(i as int)),
        decreases c.custom_providers.len() - i,
    {
        let ghost old_v = v@;
        let nm = c.custom_providers[i].name.clone();
        v.push(nm);
        assert(views(v@) =~= views(old_v).push(nm@));
        assert(custom_names(c.custom_providers@.take(i + 1)) =~= custom_names(
            c.custom_providers@.take(i as int),
        ).push(nm@));
        assert(views(v@) =~= builtin + custom_names(c.custom_providers@.take(i + 1)));
        i = i + 1;
    }
    assert(c.custom_providers@.take(c.custom_providers.len() as int) =~= c.custom_providers@);
    if v.len() == 0 {
        v.push(String::from_str("(none)"));
        assert(views(v@) =~= seq!["(none)"@]);
    }
    v
}

fn push_toggle(v: &mut Vec<String>, t: Option<bool>, name: &str)
    ensures
        views(final(v)@) == views(old(v)@) + toggle_item(t, name@),
{
    match t {
        Some(enabled) => {
            let mut s = str_chars(name);
            push_str(&mut s, " (");
            if enabled {
                push_str(&mut s, "enabled");
            } else {
                push_str(&mut s, "disabled");
            }
            push_str(&mut s, ")");
            v.push(chars_to_string(&s));
        },
        None => {},
    }
    assert(views(v@) =~= views(old(v)@) + toggle_item(t, name@));
}

#[verifier::rlimit(30)]
fn channel_names(c: &ChannelsConfig) -> (v: Vec<String>)
    ensures
        views(v@) == channel_list(*c),
{
    let mut v: Vec<String> = Vec::new();
    assert(views(v@) =~= Seq::<Seq<char>>::empty());
    let tg = match &c.telegram {
        Some(t) => Some(t.enabled),
        None => None,
    };
    let dc = match &c.discord {
        Some(t) => Some(t.enabled),
        None => None,
    };
    push_toggle(&mut v, tg, "telegram");
    push_toggle(&mut v, dc, "discord");
    push_if(&mut v, c.slack, "slack");
    push_if(&mut v, c.matrix, "matrix");
    push_if(&mut v, c.whatsapp, "whatsapp");
    push_if(&mut v, c.email, "email");
    push_if(&mut v, c.dingtalk, "dingtalk");
    push_if(&mut v, c.feishu, "feishu");
    push_if(&mut v, c.wecom, "wecom");
    push_if(&mut v, c.weixin, "weixin");
    push_if(&mut v, c.qq, "qq");
    push_if(&mut v, c.mochat, "mochat");
    let ghost listed = views(v@);
    assert(listed.len() == v@.len());
    if v.len() == 0 {
        v.push(String::from_str("(none)"));
        assert(views(v@) =~= seq!["(none)"@]);
    }
    v
}

/// The short configuration summary: agent, providers and channels lines.
pub open spec fn summary_text(c: Config) -> Seq<char> {
    "Agent: "@ + c.agent.model@ + " | Name: "@ + name_or(c.name, "unnamed"@) + "\n"@
        + "Providers: "@ + join(provider_list(c), ", "@) + "\n"@ + "Channels: "@ + join(
        channel_list(c.channels),
        ", "@,
    ) + "\n"@
}

/// Build the short configuration summary block.
pub fn build_summary(config: &Config) -> (s: String)
    ensures
        s@ == summary_text(*config),
{
    let mut out: Vec<char> = Vec::new();
    push_str(&mut out, "Agent: ");
    push_string(&mut out, &config.agent.model);
    push_str(&mut out, " | Name: ");
    push_name_or(&mut out, &config.name, "unnamed");
    push_str(&mut out, "\n");
    push_str(&mut out, "Providers: ");
    let providers = provider_names(config);
    push_joined(&mut out, &providers, ", ");
    push_str(&mut out, "\n");
    push_str(&mut out, "Channels: ");
    let channels = channel_names(&config.channels);
    push_joined(&mut out, &channels, ", ");
    push_str(&mut out, "\n");
    assert(out@ =~= summary_text(*config));
    chars_to_string(&out)
}

// ---------------------------------------------------------------------------
// /validate
// ---------------------------------------------------------------------------

/// The reply to `/validate`.
pub open spec fn validate_text(loaded: Result<Config, String>, findings: Seq<ValidationFinding>) -> Seq<char> {
    match loaded {
        Err(e) => "Failed to load configuration.\n\nError: "@ + e@
            + "\n\nCreate one at ~/.nanobot-rs/config.yaml or run `nanobot-rs setup`."@,
        Ok(c) => {
            let n_err = count_severity(findings, Severity::Error);
            let n_warn = count_severity(findings, Severity::Warning);
            let header = if findings.len() == 0 {
                "Configuration is valid. No issues found.\n"@
            } else {
                "Configuration has "@ + decimal(n_err) + " error(s) and "@ + decimal(n_warn)
                    + " warning(s).\n"@
            };
            let errors = if n_err > 0 {
                "\nErrors ("@ + decimal(n_err) + "):\n"@ + finding_lines(findings, Severity::Error)
            } else {
                Seq::empty()
            };
            let warnings = if n_warn > 0 {
                "\nWarnings ("@ + decimal(n_warn) + "):\n"@ + finding_lines(
                    findings,
                    Severity::Warning,
                )
            } else {
                Seq::empty()
            };
            header + errors + warnings + "\n"@ + summary_text(c) + "\n"@
        },
    }
}

/// Render the outcome of loading and validating the configuration as a
/// human-friendly multi-line report.
pub fn handle_validate(loaded: &Result<Config, String>, findings: &[ValidationFinding]) -> (s: String)
    ensures
        s@ == validate_text(*loaded, findings@),
{
    let config = match loaded {
        Ok(c) => c,
        Err(e) => {
            let mut out: Vec<char> = Vec::new();
            push_str(&mut out, "Failed to load configuration.\n\nError: ");
            push_string(&mut out, e);
            push_str(
                &mut out,
                "\n\nCreate one at ~/.nanobot-rs/config.yaml or run `nanobot-rs setup`.",
            );
            return chars_to_string(&out);
        },
    };
    let mut errs: Vec<char> = Vec::new();
    let n_err = collect_findings(&mut errs, findings, Severity::Error);
    let mut warns: Vec<char> = Vec::new();
    let n_warn = collect_findings(&mut warns, findings, Severity::Warning);
    proof {
        lemma_count_le(findings@, Severity::Error);
        lemma_count_le(findings@, Severity::Warning);
    }
    let mut out: Vec<char> = Vec::new();
    if findings.len() == 0 {
        push_str(&mut out, "Configuration is valid. No issues found.\n");
    } else {
        push_str(&mut out, "Configuration has ");
        push_decimal(&mut out, n_err as u64);
        push_str(&mut out, " error(s) and ");
        push_decimal(&mut out, n_warn as u64);
        push_str(&mut out, " warning(s).\n");
    }
    let ghost header = out@;
    if n_err > 0 {
        push_str(&mut out, "\nErrors (");
        push_decimal(&mut out, n_err as u64);
        push_str(&mut out, "):\n");
        crate::text::push_all(&mut out, &errs, 0, errs.len());
    }
    let ghost with_errors = out@;
    if n_warn > 0 {
        push_str(&mut out, "\nWarnings (");
        push_decimal(&mut out, n_warn as u64);
        push_str(&mut out, "):\n");
        crate::text::push_all(&mut out, &warns, 0, warns.len());
    }
    push_str(&mut out, "\n");
    let summary = build_summary(config);
    push_string(&mut out, &summary);
    push_str(&mut out, "\n");
    proof {
        assert(errs@.subrange(0, errs@.len() as int) =~= errs@);
        assert(warns@.subrange(0, warns@.len() as int) =~= warns@);
        assert(out@ =~= validate_text(*loaded, findings@));
    }
    chars_to_string(&out)
}

// ---------------------------------------------------------------------------
// /menu
// ---------------------------------------------------------------------------

/// The main-menu keyboard: Status and Help, then Validate Config and Cancel.
pub open spec fn menu_rows() -> Seq<Seq<ButtonView>> {
    seq![
        seq![("Status"@, Some("menu:status"@)), ("Help"@, Some("menu:help"@))],
        seq![("Validate Config"@, Some("menu:validate"@)), ("Cancel"@, Some("menu:cancel"@))],
    ]
}

/// Build the main-menu inline keyboard (callback data `menu:<action>`).
pub fn menu_keyboard() -> (m: InlineKeyboardMarkup)
    ensures
        m@ == menu_rows(),
{
    let b = InlineKeyboardBuilder::new().button("Status", "menu:status").button(
        "Help",
        "menu:help",
    ).new_row().button("Validate Config", "menu:validate").button("Cancel", "menu:cancel");
    let m = b.build();
    assert(m@ =~~= menu_rows());
    m
}

/// Reply to `/menu`: a greeting with the main-menu keyboard.
pub fn handle_menu() -> (r: CommandResponse)
    ensures
        r@ == ("What would you like to do?"@, Some(menu_rows())),
{
    CommandResponse { text: String::from_str("What would you like to do?"), keyboard: Some(menu_keyboard()) }
}

/// The text shown by the Status button.
pub open spec fn status_text(loaded: Result<Config, String>) -> Seq<char> {
    match loaded {
        Ok(c) => "Agent: "@ + c.agent.model@ + " | Name: "@ + name_or(c.name, "unnamed"@) + "\n"@
            + "Streaming: "@ + bool_text(c.agent.streaming) + "\n"@ + "Max tokens: "@ + decimal(
            c.agent.max_tokens as nat,
        ) + "\n"@ + "Temperature: "@ + c.agent.temperature@ + "\n"@,
        Err(e) => "Failed to load config: "@ + e@,
    }
}

/// `true` / `false`, as `Display` prints a `bool`.
pub open spec fn bool_text(b: bool) -> Seq<char> {
    if b {
        "true"@
    } else {
        "false"@
    }
}

fn push_bool(out: &mut Vec<char>, b: bool)
    ensures
        final(out)@ == old(out)@ + bool_text(b),
{
    if b {
        push_str(out, "true");
    } else {
        push_str(out, "false");
    }
}

/// The help text listing the commands.
pub open spec fn help_text() -> Seq<char> {
    "Available commands:\n/menu — Show this menu\n/validate — Check configuration\n/start — Start a conversation"@
}

/// The reply to a menu button: its text and the keyboard to show next.
pub open spec fn menu_callback_reply(
    action: Seq<char>,
    loaded: Result<Config, String>,
    findings: Seq<ValidationFinding>,
) -> (Seq<char>, Option<Seq<Seq<ButtonView>>>) {
    if action == "status"@ {
        (status_text(loaded), Some(menu_rows()))
    } else if action == "help"@ {
        (help_text(), Some(menu_rows()))
    } else if action == "validate"@ {
        (validate_text(loaded, findings), Some(menu_rows()))
    } else if action == "cancel"@ {
        ("Menu closed."@, None)
    } else {
        ("Unknown action: "@ + action, Some(menu_rows()))
    }
}

/// Handle a menu button callback: the text to display and the keyboard to
/// show in place of the old one (`None` closes the menu).
pub fn handle_menu_callback(
    action: &str,
    loaded: &Result<Config, String>,
    findings: &[ValidationFinding],
) -> (r: (String, Option<InlineKeyboardMarkup>))
    ensures
        (r.0@, keyboard_view(r.1)) == menu_callback_reply(action@, *loaded, findings@),
{
    if crate::text::str_eq(action, "status") {
        let mut out: Vec<char> = Vec::new();
        match loaded {
            Ok(c) => {
                push_str(&mut out, "Agent: ");
                push_string(&mut out, &c.agent.model);
                push_str(&mut out, " | Name: ");
                push_name_or(&mut out, &c.name, "unnamed");
                push_str(&mut out, "\n");
                push_str(&mut out, "Streaming: ");
                push_bool(&mut out, c.agent.streaming);
                push_str(&mut out, "\n");
                push_str(&mut out, "Max tokens: ");
                push_decimal(&mut out, c.agent.max_tokens as u64);
                push_str(&mut out, "\n");
                push_str(&mut out, "Temperature: ");
                push_string(&mut out, &c.agent.temperature);
                push_str(&mut out, "\n");
            },
            Err(e) => {
                push_str(&mut out, "Failed to load config: ");
                push_string(&mut out, e);
            },
        }
        assert(out@ =~= status_text(*loaded));
        (chars_to_string(&out), Some(menu_keyboard()))
    } else if crate::text::str_eq(action, "help") {
        (
            String::from_str(
                "Available commands:\n/menu — Show this menu\n/validate — Check configuration\n/start — Start a conversation",
            ),
            Some(menu_keyboard()),
        )
    } else if crate::text::str_eq(action, "validate") {
        (handle_validate(loaded, findings), Some(menu_keyboard()))
    } else if crate::text::str_eq(action, "cancel") {
        (String::from_str("Menu closed."), None)
    } else {
        let mut out: Vec<char> = Vec::new();
        push_str(&mut out, "Unknown action: ");
        push_str(&mut out, action);
        (chars_to_string(&out), Some(menu_keyboard()))
    }
}

// ---------------------------------------------------------------------------
// /settings and /history pages
// ---------------------------------------------------------------------------

/// Number of settings items displayed per page.
pub const SETTINGS_PER_PAGE: usize = 5;

/// Number of history sessions displayed per page.
pub const HISTORY_PER_PAGE: usize = 5;

/// Number of pages for `n` items, `per` to a page (at least one page).
pub open spec fn page_count(n: nat, per: nat) -> nat {
    let c = n / per + (if n % per == 0 {
        0nat
    } else {
        1nat
    });
    if c == 0 {
        1
    } else {
        c
    }
}

/// The requested page, clamped to the last one.
pub open spec fn clamp_page(page: nat, total: nat) -> nat {
    if page + 1 <= total {
        page
    } else {
        (total - 1) as nat
    }
}

/// Index one past the last item shown on page `p`.
pub open spec fn page_end(n: nat, per: nat, p: nat) -> nat {
    if p * per + per < n {
        p * per + per
    } else {
        n
    }
}

/// `items[lo..hi]`, one indented line each.
pub open spec fn item_lines(items: Seq<Seq<char>>, lo: int, hi: int) -> Seq<char>
    decreases hi - lo,
{
    if hi <= lo {
        Seq::empty()
    } else {
        item_lines(items, lo, hi - 1) + "  "@ + items[hi - 1] + "\n"@
    }
}

/// `items[lo..hi]`, one indented line each, numbered from 1 over the whole list.
pub open spec fn numbered_lines(items: Seq<Seq<char>>, lo: int, hi: int) -> Seq<char>
    decreases hi - lo,
{
    if hi <= lo {
        Seq::empty()
    } else {
        numbered_lines(items, lo, hi - 1) + "  "@ + decimal(hi as nat) + ". "@ + items[hi - 1]
            + "\n"@
    }
}

/// The pagination keyboard of a paged view, present when there are several pages.
pub open spec fn pager(prefix: Seq<char>, p: nat, total: nat) -> Option<Seq<Seq<ButtonView>>> {
    if total > 1 {
        Some(built_rows((Seq::empty(), pagination_row(prefix, p, total))))
    } else {
        None
    }
}

/// `Title (page i/n):` followed by a blank line.
pub open spec fn page_header(title: Seq<char>, p: nat, total: nat) -> Seq<char> {
    title + " (page "@ + decimal(p + 1) + "/"@ + decimal(total) + "):\n\n"@
}

/// The flat list of settings shown by `/settings`.
pub open spec fn settings_list(c: Config) -> Seq<Seq<char>> {
    seq![
        "Name: "@ + name_or(c.name, "(unnamed)"@),
        "Model: "@ + c.agent.model@,
        "Streaming: "@ + bool_text(c.agent.streaming),
        "Max tokens: "@ + decimal(c.agent.max_tokens as nat),
        "Temperature: "@ + c.agent.temperature@,
        "Providers: "@ + join(provider_list(c), ", "@),
        "Channels: "@ + join(channel_list(c.channels), ", "@),
    ]
}

/// The `/settings` page `page` for configuration `c`.
pub open spec fn settings_reply(c: Config, page: nat) -> (Seq<char>, Option<Seq<Seq<ButtonView>>>) {
    let items = settings_list(c);
    let total = page_count(items.len(), 5);
    let p = clamp_page(page, total);
    (
        page_header("Settings"@, p, total) + item_lines(items, (p * 5) as int, page_end(items.len(), 5, p) as int),
        pager("settings"@, p, total),
    )
}

/// The `/history` page `page` for the given session keys.
pub open spec fn history_reply(keys: Seq<Seq<char>>, page: nat) -> (Seq<char>, Option<Seq<Seq<ButtonView>>>) {
    if keys.len() == 0 {
        ("No active sessions."@, None)
    } else {
        let total = page_count(keys.len(), 5);
        let p = clamp_page(page, total);
        (
            page_header("Sessions"@, p, total) + numbered_lines(keys, (p * 5) as int, page_end(keys.len(), 5, p) as int),
            pager("history"@, p, total),
        )
    }
}

fn one_string(lit: &str, tail: &Vec<char>) -> (s: String)
    ensures
        s@ == lit@ + tail@,
{
    let mut out = str_chars(lit);
    crate::text::push_all(&mut out, tail, 0, tail.len());
    assert(tail@.subrange(0, tail@.len() as int) =~= tail@);
    chars_to_string(&out)
}

/// Collect the configuration settings into a flat list of `key: value` strings.
pub fn collect_settings(config: &Config) -> (v: Vec<String>)
    ensures
        views(v@) == settings_list(*config),
{
    let mut v: Vec<String> = Vec::new();
    let mut t: Vec<char> = Vec::new();
    push_name_or(&mut t, &config.name, "(unnamed)");
    v.push(one_string("Name: ", &t));
    let mut t: Vec<char> = Vec::new();
    push_string(&mut t, &config.agent.model);
    v.push(one_string("Model: ", &t));
    let mut t: Vec<char> = Vec::new();
    push_bool(&mut t, config.agent.streaming);
    v.push(one_string("Streaming: ", &t));
    let mut t: Vec<char> = Vec::new();
    push_decimal(&mut t, config.agent.max_tokens as u64);
    v.push(one_string("Max tokens: ", &t));
    let mut t: Vec<char> = Vec::new();
    push_string(&mut t, &config.agent.temperature);
    v.push(one_string("Temperature: ", &t));
    let mut t: Vec<char> = Vec::new();
    let providers = provider_names(config);
    push_joined(&mut t, &providers, ", ");
    v.push(one_string("Providers: ", &t));
    let mut t: Vec<char> = Vec::new();
    let channels = channel_names(&config.channels);
    push_joined(&mut t, &channels, ", ");
    v.push(one_string("Channels: ", &t));
    assert(views(v@) =~= settings_list(*config));
    v
}

/// Page count and clamped page for `n` items, five to a page.
fn page_of(n: usize, page: usize) -> (r: (usize, usize, usize, usize))
    ensures
        r.0 as nat == page_count(n as nat, 5),
        r.1 as nat == clamp_page(page as nat, r.0 as nat),
        r.2 as nat == r.1 * 5,
        r.3 as nat == page_end(n as nat, 5, r.1 as nat),
        r.2 <= r.3 <= n,
        r.1 < r.0,
{
    let c = n / 5 + if n % 5 == 0 {
        0
    } else {
        1
    };
    let total = if c == 0 {
        1
    } else {
        c
    };
    let p = if page < total {
        page
    } else {
        total - 1
    };
    let start = p * 5;
    let end = if start + 5 < n {
        start + 5
    } else {
        n
    };
    (total, p, start, end)
}

fn push_header(out: &mut Vec<char>, title: &str, p: usize, total: usize)
    requires
        p < total,
    ensures
        final(out)@ == old(out)@ + page_header(title@, p as nat, total as nat),
{
    push_str(out, title);
    push_str(out, " (page ");
    push_decimal(out, (p + 1) as u64);
    push_str(out, "/");
    push_decimal(out, total as u64);
    push_str(out, "):\n\n");
    assert(final(out)@ =~= old(out)@ + page_header(title@, p as nat, total as nat));
}

fn pager_keyboard(prefix: &str, p: usize, total: usize) -> (k: Option<InlineKeyboardMarkup>)
    ensures
        keyboard_view(k) == pager(prefix@, p as nat, total as nat),
{
    if total > 1 {
        Some(InlineKeyboardBuilder::pagination(prefix, p, total).build())
    } else {
        None
    }
}

/// Build a paginated settings view from a loaded configuration, with a
/// pagination keyboard when there are several pages.
pub fn handle_settings(config: &Config, page: usize) -> (r: CommandResponse)
    ensures
        r@ == settings_reply(*config, page as nat),
{
    let settings = collect_settings(config);
    let ghost items = views(settings@);
    let (total, p, start, end) = page_of(settings.len(), page);
    let mut out: Vec<char> = Vec::new();
    push_header(&mut out, "Settings", p, total);
    let ghost head = out@;
    let mut i = start;
    while i < end
        invariant
            start <= i <= end <= settings.len(),
            items == views(settings@),
            out@ == head + item_lines(items, start as int, i as int),
        decreases end - i,
    {
        push_str(&mut out, "  ");
        push_string(&mut out, &settings[i]);
        push_str(&mut out, "\n");
        assert(out@ =~= head + item_lines(items, start as int, i + 1));
        i = i + 1;
    }
    let keyboard = pager_keyboard("settings", p, total);
    CommandResponse { text: chars_to_string(&out), keyboard }
}

/// Handle `/settings` or a settings pagination callback, given the outcome
/// of loading the configuration.
pub fn handle_settings_callback(loaded: &Result<Config, String>, page: usize) -> (r: CommandResponse)
    ensures
        r@ == match *loaded {
            Ok(c) => settings_reply(c, page as nat),
            Err(e) => ("Failed to load config: "@ + e@, None),
        },
{
    match loaded {
        Ok(c) => handle_settings(c, page),
        Err(e) => {
            let mut out: Vec<char> = Vec::new();
            push_str(&mut out, "Failed to load config: ");
            push_string(&mut out, e);
            CommandResponse { text: chars_to_string(&out), keyboard: None }
        },
    }
}

/// Build a paginated session-history view from a list of session keys, with
/// a pagination keyboard when there are several pages.
pub fn handle_history(session_keys: &[String], page: usize) -> (r: CommandResponse)
    ensures
        r@ == history_reply(views(session_keys@), page as nat),
{
    if session_keys.len() == 0 {
        return CommandResponse { text: String::from_str("No active sessions."), keyboard: None };
    }
    let ghost items = views(session_keys@);
    let (total, p, start, end) = page_of(session_keys.len(), page);
    let mut out: Vec<char> = Vec::new();
    push_header(&mut out, "Sessions", p, total);
    let ghost head = out@;
    let mut i = start;
    while i < end
        invariant
            start <= i <= end <= session_keys.len(),
            items == views(session_keys@),
            out@ == head + numbered_lines(items, start as int, i as int),
        decreases end - i,
    {
        push_str(&mut out, "  ");
        push_decimal(&mut out, (i + 1) as u64);
        push_str(&mut out, ". ");
        push_string(&mut out, &session_keys[i]);
        push_str(&mut out, "\n");
        assert(out@ =~= head + numbered_lines(items, start as int, i + 1));
        i = i + 1;
    }
    let keyboard = pager_keyboard("history", p, total);
    CommandResponse { text: chars_to_string(&out), keyboard }
}

/// Handle a `/history` pagination callback with the provided session keys.
pub fn handle_history_callback(session_keys: &[String], page: usize) -> (r: CommandResponse)
    ensures
        r@ == history_reply(views(session_keys@), page as nat),
{
    handle_history(session_keys, page)
}

// ---------------------------------------------------------------------------
// Dispatch
// ---------------------------------------------------------------------------

/// The reply to a message: `Some` for a built-in command, `None` for any
/// other message (which the caller forwards to the bus).
pub open spec fn command_reply(
    text: Seq<char>,
    loaded: Result<Config, String>,
    findings: Seq<ValidationFinding>,
) -> Option<(Seq<char>, Option<Seq<Seq<ButtonView>>>)> {
    if is_command(text, "validate"@) {
        Some((validate_text(loaded, findings), None))
    } else if is_command(text, "menu"@) {
        Some(("What would you like to do?"@, Some(menu_rows())))
    } else if is_command(text, "settings"@) {
        Some(
            match loaded {
                Ok(c) => settings_reply(c, 0),
                Err(e) => ("Failed to load config: "@ + e@, None),
            },
        )
    } else if is_command(text, "history"@) {
        Some(history_reply(Seq::empty(), 0))
    } else {
        None
    }
}

/// Try to handle a built-in command: `Some(response)` when `text` is one of
/// `/validate`, `/menu`, `/settings` or `/history`, else `None`.
pub fn try_handle_command(
    text: &str,
    loaded: &Result<Config, String>,
    findings: &[ValidationFinding],
) -> (r: Option<CommandResponse>)
    ensures
        match r {
            Some(x) => command_reply(text@, *loaded, findings@) == Some(x@),
            None => command_reply(text@, *loaded, findings@) is None,
        },
{
    if matches_command(text, "validate") {
        Some(CommandResponse { text: handle_validate(loaded, findings), keyboard: None })
    } else if matches_command(text, "menu") {
        Some(handle_menu())
    } else if matches_command(text, "settings") {
        Some(handle_settings_callback(loaded, 0))
    } else if matches_command(text, "history") {
        let none: Vec<String> = Vec::new();
        let r = handle_history(none.as_slice(), 0);
        assert(views(none@) =~= Seq::<Seq<char>>::empty());
        Some(r)
    } else {
        None
    }
}

// ---------------------------------------------------------------------------
// Laws of command matching
// ---------------------------------------------------------------------------

/// Only a message starting with `/` (after leading whitespace) is a command.
pub proof fn law_command_starts_with_slash(text: Seq<char>, command: Seq<char>)
    requires
        is_command(text, command),
    ensures
        trim(text).len() > 0 && trim(text)[0] == '/',
{
}

/// The command name is compared ignoring ASCII case: names that differ only
/// in ASCII case match the same messages.
pub proof fn law_command_name_case(text: Seq<char>, c1: Seq<char>, c2: Seq<char>)
    requires
        eq_ignore_ascii_case(c1, c2),
    ensures
        is_command(text, c1) == is_command(text, c2),
{
}

proof fn lemma_ws_back_stops(s: Seq<char>, lo: int, j: int, k: int)
    requires
        lo <= k < j <= s.len(),
        0 <= lo,
        !is_ws(s[k]),
    ensures
        skip_ws_back(s, lo, j) > k,
    decreases j - lo,
{
    if j - 1 > k && is_ws(s[j - 1]) {
        lemma_ws_back_stops(s, lo, j - 1, k);
    }
}

proof fn lemma_before_at_prefix(u: Seq<char>, c: Seq<char>, i: int)
    requires
        0 <= i <= c.len(),
        c.len() < u.len(),
        u.subrange(0, c.len() as int) == c,
        u[c.len() as int] == '@',
        forall|k: int| 0 <= k < c.len() ==> c[k] != '@',
    ensures
        before_at(u, i) == c,
    decreases u.len() - i,
{
    if i < c.len() {
        assert(u[i] == c[i]);
        lemma_before_at_prefix(u, c, i + 1);
    }
}

proof fn lemma_word_without_ws(c: Seq<char>, i: int)
    requires
        0 <= i <= c.len(),
        forall|k: int| 0 <= k < c.len() ==> !is_ws(#[trigger] c[k]),
    ensures
        skip_non_ws(c, i) == c.len(),
    decreases c.len() - i,
{
    if i < c.len() {
        lemma_word_without_ws(c, i + 1);
    }
}

/// A command followed by a bot mention and arguments matches it:
/// `/<command>@<bot> <args>` matches `command` for any bot name and
/// arguments, when the command name holds no `@` and no whitespace.
pub proof fn law_command_with_mention_and_args(command: Seq<char>, bot: Seq<char>, args: Seq<char>)
    requires
        forall|k: int| 0 <= k < command.len() ==> command[k] != '@' && !is_ws(#[trigger] command[k]),
    ensures
        is_command(seq!['/'] + command + seq!['@'] + bot + seq![' '] + args, command),
{
    let text = seq!['/'] + command + seq!['@'] + bot + seq![' '] + args;
    let n = command.len() as int;
    assert(text[0] == '/');
    assert(!is_ws('/'));
    assert(skip_ws(text, 0) == 0);
    assert(text[n + 1] == '@');
    assert(!is_ws('@'));
    lemma_ws_back_stops(text, 0, text.len() as int, n + 1);
    let b = skip_ws_back(text, 0, text.len() as int);
    lemma_skip_ws_back_bounds(text, 0, text.len() as int);
    let t = trim(text);
    assert(t == text.subrange(0, b));
    let u = t.subrange(1, t.len() as int);
    assert(u.subrange(0, n) =~= command);
    assert(u[n] == '@');
    lemma_before_at_prefix(u, command, 0);
    lemma_word_without_ws(command, 0);
    if command.len() > 0 {
        assert(skip_ws(command, 0) == 0);
        assert(command.subrange(0, n) =~= command);
    }
    assert(first_word(before_at(u, 0)) == command);
}

/// All characters of `s` are whitespace.
pub open spec fn all_ws(s: Seq<char>) -> bool {
    forall|k: int| 0 <= k < s.len() ==> is_ws(#[trigger] s[k])
}

proof fn lemma_skip_ws_shift(p: Seq<char>, q: Seq<char>, j: int)
    requires
        0 <= j <= q.len(),
    ensures
        skip_ws(p + q, p.len() + j) == p.len() + skip_ws(q, j),
    decreases q.len() - j,
{
    if j < q.len() {
        assert((p + q)[p.len() + j] == q[j]);
        lemma_skip_ws_shift(p, q, j + 1);
    }
}

proof fn lemma_skip_ws_prefix(p: Seq<char>, q: Seq<char>, i: int)
    requires
        0 <= i <= p.len(),
        all_ws(p),
    ensures
        skip_ws(p + q, i) == p.len() + skip_ws(q, 0),
    decreases p.len() - i,
{
    if i < p.len() {
        assert((p + q)[i] == p[i]);
        lemma_skip_ws_prefix(p, q, i + 1);
    } else {
        lemma_skip_ws_shift(p, q, 0);
    }
}

proof fn lemma_skip_ws_suffix(t: Seq<char>, w: Seq<char>, i: int)
    requires
        0 <= i <= t.len(),
        skip_ws(t, i) < t.len(),
    ensures
        skip_ws(t + w, i) == skip_ws(t, i),
    decreases t.len() - i,
{
    assert((t + w)[i] == t[i]);
    if is_ws(t[i]) {
        lemma_skip_ws_suffix(t, w, i + 1);
    }
}

proof fn lemma_skip_ws_all(s: Seq<char>, i: int)
    requires
        0 <= i <= s.len(),
        all_ws(s.subrange(i, s.len() as int)),
    ensures
        skip_ws(s, i) == s.len(),
    decreases s.len() - i,
{
    if i < s.len() {
        assert(s.subrange(i, s.len() as int)[0] == s[i]);
        assert(all_ws(s.subrange(i + 1, s.len() as int))) by {
            assert forall|k: int| 0 <= k < s.len() - i - 1 implies is_ws(#[trigger] s.subrange(i + 1, s.len() as int)[k]) by {
                assert(s.subrange(i + 1, s.len() as int)[k] == s.subrange(i, s.len() as int)[k + 1]);
            }
        }
        lemma_skip_ws_all(s, i + 1);
    }
}

proof fn lemma_back_strip_suffix(x: Seq<char>, lo: int, e: int, j: int)
    requires
        0 <= lo <= e <= j <= x.len(),
        forall|k: int| e <= k < x.len() ==> is_ws(#[trigger] x[k]),
    ensures
        skip_ws_back(x, lo, j) == skip_ws_back(x, lo, e),
    decreases j - e,
{
    if j > e {
        lemma_back_strip_suffix(x, lo, e, j - 1);
    }
}

proof fn lemma_back_shift(p: Seq<char>, t: Seq<char>, w: Seq<char>, lo: int, j: int)
    requires
        0 <= lo <= j <= t.len(),
    ensures
        skip_ws_back(p + t + w, p.len() + lo, p.len() + j) == p.len() + skip_ws_back(t, lo, j),
    decreases j - lo,
{
    if j > lo {
        assert((p + t + w)[p.len() + j - 1] == t[j - 1]);
        lemma_back_shift(p, t, w, lo, j - 1);
    }
}

proof fn lemma_trim_padded(w1: Seq<char>, t: Seq<char>, w2: Seq<char>)
    requires
        all_ws(w1),
        all_ws(w2),
    ensures
        trim(w1 + t + w2) == trim(t),
{
    let x = w1 + t + w2;
    assert(x == w1 + (t + w2));
    lemma_skip_ws_prefix(w1, t + w2, 0);
    lemma_skip_ws_bounds(t, 0);
    let a = skip_ws(t, 0);
    if a < t.len() {
        lemma_skip_ws_suffix(t, w2, 0);
        let la = w1.len() + a;
        assert(skip_ws(x, 0) == la);
        lemma_back_strip_suffix(x, la, (w1.len() + t.len()) as int, x.len() as int);
        lemma_back_shift(w1, t, w2, a, t.len() as int);
        lemma_skip_ws_back_bounds(t, a, t.len() as int);
        let b = skip_ws_back(t, a, t.len() as int);
        assert(x.subrange(la, w1.len() + b) =~= t.subrange(a, b));
    } else {
        assert(all_ws(t.subrange(0, t.len() as int)));
        assert(all_ws((t + w2).subrange(0, (t + w2).len() as int))) by {
            assert forall|k: int| 0 <= k < (t + w2).len() implies is_ws(#[trigger] (t + w2).subrange(0, (t + w2).len() as int)[k]) by {
                if k < t.len() {
                    assert((t + w2)[k] == t[k]);
                } else {
                    assert((t + w2)[k] == w2[k - t.len()]);
                }
            }
        }
        lemma_skip_ws_all(t + w2, 0);
        assert(skip_ws(x, 0) == x.len());
        assert(trim(x) =~= Seq::<char>::empty());
        assert(trim(t) =~= Seq::<char>::empty());
    }
}

/// Whitespace around a message does not change whether it is a command.
pub proof fn law_command_ignores_surrounding_whitespace(w1: Seq<char>, text: Seq<char>, w2: Seq<char>, command: Seq<char>)
    requires
        all_ws(w1),
        all_ws(w2),
    ensures
        is_command(w1 + text + w2, command) == is_command(text, command),
{
    lemma_trim_padded(w1, text, w2);
}

/// ASCII upper-casing of one character (others unchanged).
pub open spec fn ascii_upper(c: char) -> char {
    if 'a' <= c && c <= 'z' {
        ((c as u32) - 32) as char
    } else {
        c
    }
}

/// `str::to_ascii_uppercase` on a character sequence.
pub open spec fn upper_seq(s: Seq<char>) -> Seq<char> {
    s.map_values(|c: char| ascii_upper(c))
}

proof fn lemma_upper_char(c: char)
    ensures
        is_ws(ascii_upper(c)) == is_ws(c),
        (ascii_upper(c) == '/') == (c == '/'),
        (ascii_upper(c) == '@') == (c == '@'),
        ascii_lower(ascii_upper(c)) == ascii_lower(c),
{
}

proof fn lemma_upper_skip_ws(s: Seq<char>, i: int)
    ensures
        skip_ws(upper_seq(s), i) == skip_ws(s, i),
    decreases s.len() - i,
{
    if 0 <= i < s.len() {
        lemma_upper_char(s[i]);
        lemma_upper_skip_ws(s, i + 1);
    }
}

proof fn lemma_upper_skip_non_ws(s: Seq<char>, i: int)
    ensures
        skip_non_ws(upper_seq(s), i) == skip_non_ws(s, i),
    decreases s.len() - i,
{
    if 0 <= i < s.len() {
        lemma_upper_char(s[i]);
        lemma_upper_skip_non_ws(s, i + 1);
    }
}

proof fn lemma_upper_skip_ws_back(s: Seq<char>, lo: int, j: int)
    requires
        0 <= lo,
        j <= s.len(),
    ensures
        skip_ws_back(upper_seq(s), lo, j) == skip_ws_back(s, lo, j),
    decreases j - lo,
{
    if j > lo {
        lemma_upper_char(s[j - 1]);
        lemma_upper_skip_ws_back(s, lo, j - 1);
    }
}

proof fn lemma_upper_before_at(u: Seq<char>, i: int)
    requires
        0 <= i,
    ensures
        before_at(upper_seq(u), i) == upper_seq(before_at(u, i)),
    decreases u.len() - i,
{
    if i < u.len() {
        lemma_upper_char(u[i]);
        if u[i] == '@' {
            assert(upper_seq(u).subrange(0, i) =~= upper_seq(u.subrange(0, i)));
        } else {
            lemma_upper_before_at(u, i + 1);
        }
    }
}

proof fn lemma_skip_non_ws_bounds(s: Seq<char>, i: int)
    requires
        0 <= i <= s.len(),
    ensures
        i <= skip_non_ws(s, i) <= s.len(),
    decreases s.len() - i,
{
    if i < s.len() && !is_ws(s[i]) {
        lemma_skip_non_ws_bounds(s, i + 1);
    }
}

/// The text's ASCII case does not matter: upper-casing a message does not
/// change whether it is the command.
pub proof fn law_command_text_case(text: Seq<char>, command: Seq<char>)
    ensures
        is_command(upper_seq(text), command) == is_command(text, command),
{
    let ut = upper_seq(text);
    lemma_upper_skip_ws(text, 0);
    lemma_skip_ws_bounds(text, 0);
    let a = skip_ws(text, 0);
    lemma_upper_skip_ws_back(text, a, text.len() as int);
    lemma_skip_ws_back_bounds(text, a, text.len() as int);
    let b = skip_ws_back(text, a, text.len() as int);
    let t = trim(text);
    assert(trim(ut) =~= upper_seq(t));
    if t.len() > 0 {
        lemma_upper_char(t[0]);
        let u = t.subrange(1, t.len() as int);
        assert(upper_seq(t).subrange(1, t.len() as int) =~= upper_seq(u));
        lemma_upper_before_at(u, 0);
        let ba = before_at(u, 0);
        lemma_upper_skip_ws(ba, 0);
        lemma_skip_ws_bounds(ba, 0);
        let wa = skip_ws(ba, 0);
        if wa < ba.len() {
            lemma_upper_skip_non_ws(ba, wa);
            lemma_skip_non_ws_bounds(ba, wa);
            assert(upper_seq(ba).subrange(wa, skip_non_ws(ba, wa)) =~= upper_seq(ba.subrange(wa, skip_non_ws(ba, wa))));
        }
        let w = first_word(ba);
        assert(first_word(upper_seq(ba)) == upper_seq(w));
        assert forall|i: int| 0 <= i < w.len() implies ascii_lower(#[trigger] upper_seq(w)[i]) == ascii_lower(w[i]) by {
            lemma_upper_char(w[i]);
        }
        assert(eq_ignore_ascii_case(upper_seq(w), command) == eq_ignore_ascii_case(w, command));
    }
}

/// The line listing item `i`: its 1-based position in the whole list, then
/// the item.
pub open spec fn listed_line(items: Seq<Seq<char>>, i: int) -> Seq<char> {
    "  "@ + decimal((i + 1) as nat) + ". "@ + items[i] + "\n"@
}

proof fn lemma_numbered_lines_flat(items: Seq<Seq<char>>, lo: int, hi: int)
    requires
        lo <= hi,
    ensures
        numbered_lines(items, lo, hi) == Seq::new((hi - lo) as nat, |k: int| listed_line(items, lo + k)).flatten(),
    decreases hi - lo,
{
    let f = |k: int| listed_line(items, lo + k);
    if hi > lo {
        lemma_numbered_lines_flat(items, lo, hi - 1);
        assert(Seq::new((hi - lo) as nat, f) =~= Seq::new((hi - 1 - lo) as nat, f).push(f(hi - 1 - lo)));
        Seq::new((hi - 1 - lo) as nat, f).lemma_flatten_push(f(hi - 1 - lo));
        assert(numbered_lines(items, lo, hi) =~= numbered_lines(items, lo, hi - 1) + listed_line(items, hi - 1));
    } else {
        assert(Seq::new((hi - lo) as nat, f) =~= Seq::<Seq<char>>::empty());
    }
}

/// Every line of a `/history` page names its key with the key's 1-based
/// position in the whole list, whatever the page: the page shows keys
/// `5p .. min(5p + 5, n)` for the (clamped) page `p`, each as
/// `  {i+1}. {key}`.
pub proof fn law_history_numbers_whole_list(keys: Seq<Seq<char>>, page: nat)
    requires
        keys.len() > 0,
    ensures
        ({
            let total = page_count(keys.len(), 5);
            let p = clamp_page(page, total);
            let lo = (p * 5) as int;
            let hi = page_end(keys.len(), 5, p) as int;
            history_reply(keys, page).0 == page_header("Sessions"@, p, total) + Seq::new(
                (hi - lo) as nat,
                |k: int| listed_line(keys, lo + k),
            ).flatten()
        }),
{
    let total = page_count(keys.len(), 5);
    let p = clamp_page(page, total);
    let lo = (p * 5) as int;
    let hi = page_end(keys.len(), 5, p) as int;
    assert(p < total);
    assert(lo <= hi) by (nonlinear_arith)
        requires
            lo == p * 5,
            p < total,
            total == page_count(keys.len(), 5),
            hi == page_end(keys.len(), 5, p),
            keys.len() > 0,
    ;
    lemma_numbered_lines_flat(keys, lo, hi);
}

/// Paging of a list of `n > 0` items five to a page: there are just
/// enough pages to hold them all, a request past the last page shows the
/// last one, and page `p` shows items `5p` up to `min(5p + 5, n)`, never
/// none.
pub proof fn law_five_per_page(n: nat, page: nat)
    requires
        n > 0,
    ensures
        page_count(n, 5) >= 1,
        (page_count(n, 5) - 1) * 5 < n <= page_count(n, 5) * 5,
        clamp_page(page, page_count(n, 5)) == (if page < page_count(n, 5) {
            page
        } else {
            (page_count(n, 5) - 1) as nat
        }),
        ({
            let p = clamp_page(page, page_count(n, 5));
            let hi = page_end(n, 5, p);
            &&& p * 5 < hi <= n
            &&& hi == (if p * 5 + 5 < n {
                p * 5 + 5
            } else {
                n
            })
        }),
{
    let total = page_count(n, 5);
    let q = n / 5;
    let r = n % 5;
    assert(n == q * 5 + r && r < 5) by (nonlinear_arith)
        requires
            q == n / 5,
            r == n % 5,
    ;
    assert(total >= 1);
    assert((total - 1) * 5 < n <= total * 5) by (nonlinear_arith)
        requires
            n == q * 5 + r,
            r < 5,
            n > 0,
            total == (if q + (if r == 0 { 0nat } else { 1nat }) == 0 { 1 } else { q + (if r == 0 { 0nat } else { 1nat }) }),
    ;
    let p = clamp_page(page, total);
    assert(p * 5 < n) by (nonlinear_arith)
        requires
            p <= total - 1,
            (total - 1) * 5 < n,
            total >= 1,
    ;
}

} // verus!
