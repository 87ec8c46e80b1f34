//! The decisions of the interactive setup wizard: the provider list and its
//! defaults, how each answer changes the configuration, and the summary shown
//! before saving. The terminal prompts run around these.

use vstd::prelude::*;
use crate::config::key_set;
use crate::config::provider_entry;
use crate::config::set_provider_api_key;
use crate::config::set_provider_url;
use crate::config::get_provider_url;
use crate::config::url_set;
use crate::config::Config;
use crate::config::TelegramConfig;
use crate::config::WebSocketConfig;
use crate::text::chars_to_string;
use crate::text::decimal;
use crate::text::find_char;
use crate::text::find_char_exec;
use crate::text::fit_from;
use crate::text::fit_prefix_len;
use crate::text::prefix_utf8_len;
use crate::text::lemma_find_char_props;
use crate::text::push_decimal;
use crate::text::push_str;
use crate::text::push_string;
use crate::text::str_chars;
use crate::text::str_eq;
use crate::text::sub_vec;
use crate::text::trim;
use crate::text::trim_chars;
use crate::text::utf8_len;
use crate::text::utf8_len_at_least;
use crate::text::views;

verus! {

/// Number of wizard steps.
pub const TOTAL_STEPS: usize = 5;

/// Number of providers the wizard offers.
pub const WIZARD_PROVIDER_COUNT: usize = 11;

/// Listen address proposed for the WebSocket channel.
pub open spec fn default_ws_addr() -> Seq<char> {
    "127.0.0.1:8090"@
}

/// The providers the wizard offers, in menu order.
pub open spec fn wizard_providers() -> Seq<Seq<char>> {
    seq![
        "anthropic"@,
        "openai"@,
        "openrouter"@,
        "ollama"@,
        "deepseek"@,
        "gemini"@,
        "groq"@,
        "moonshot"@,
        "minimax"@,
        "github_copilot"@,
        "openai_codex"@,
    ]
}

/// The `i`-th provider of the menu.
pub fn wizard_provider(i: usize) -> (r: &'static str)
    requires
        i < WIZARD_PROVIDER_COUNT,
    ensures
        r@ == wizard_providers()[i as int],
{
    match i {
        0 => "anthropic",
        1 => "openai",
        2 => "openrouter",
        3 => "ollama",
        4 => "deepseek",
        5 => "gemini",
        6 => "groq",
        7 => "moonshot",
        8 => "minimax",
        9 => "github_copilot",
        _ => "openai_codex",
    }
}

/// The menu position of a provider name.
pub fn wizard_position(name: &str) -> (r: Option<usize>)
    ensures
        match r {
            Some(i) => i < WIZARD_PROVIDER_COUNT && wizard_providers()[i as int] == name@
                && forall|k: int| 0 <= k < i ==> wizard_providers()[k] != name@,
            None => !wizard_providers().contains(name@),
        },
{
    let mut i: usize = 0;
    while i < WIZARD_PROVIDER_COUNT
        invariant
            i <= WIZARD_PROVIDER_COUNT,
            forall|k: int| 0 <= k < i ==> wizard_providers()[k] != name@,
        decreases WIZARD_PROVIDER_COUNT - i,
    {
        if str_eq(wizard_provider(i), name) {
            return Some(i);
        }
        i = i + 1;
    }
    None
}

/// The menu entry preselected: the configured provider's position, else
/// `openai` (position 1).
pub fn default_provider_index(provider: &Option<String>) -> (r: usize)
    ensures
        r < WIZARD_PROVIDER_COUNT,
        match provider {
            Some(p) => if wizard_providers().contains(p@) {
                wizard_providers()[r as int] == p@ && forall|k: int|
                    0 <= k < r ==> wizard_providers()[k] != p@
            } else {
                r == 1
            },
            None => r == 1,
        },
{
    match provider {
        Some(p) => match wizard_position(p.as_str()) {
            Some(i) => {
                assert(wizard_providers()[i as int] == p@);
                i
            },
            None => 1,
        },
        None => 1,
    }
}

/// The model proposed for a provider when the configuration names none.
/// The two providers whose upstream default lies in the client library
/// (`anthropic`, `openrouter`) propose none.
pub open spec fn default_model(p: Seq<char>) -> Option<Seq<char>> {
    if p == "anthropic"@ || p == "openrouter"@ {
        None
    } else if p == "ollama"@ {
        Some("llama3"@)
    } else if p == "deepseek"@ {
        Some("deepseek-chat"@)
    } else if p == "gemini"@ {
        Some("gemini-2.5-pro"@)
    } else if p == "groq"@ {
        Some("llama-3.3-70b-versatile"@)
    } else if p == "moonshot"@ {
        Some("moonshot-v1-8k"@)
    } else if p == "minimax"@ {
        Some("MiniMax-Text-01"@)
    } else if p == "openai_codex"@ {
        Some("codex-mini"@)
    } else {
        Some("gpt-4o"@)
    }
}

/// Computes `default_model`.
pub fn default_model_for(provider: &str) -> (r: Option<&'static str>)
    ensures
        match r {
            Some(m) => default_model(provider@) == Some(m@),
            None => default_model(provider@) is None,
        },
{
    if str_eq(provider, "anthropic") || str_eq(provider, "openrouter") {
        None
    } else if str_eq(provider, "ollama") {
        Some("llama3")
    } else if str_eq(provider, "deepseek") {
        Some("deepseek-chat")
    } else if str_eq(provider, "gemini") {
        Some("gemini-2.5-pro")
    } else if str_eq(provider, "groq") {
        Some("llama-3.3-70b-versatile")
    } else if str_eq(provider, "moonshot") {
        Some("moonshot-v1-8k")
    } else if str_eq(provider, "minimax") {
        Some("MiniMax-Text-01")
    } else if str_eq(provider, "openai_codex") {
        Some("codex-mini")
    } else {
        Some("gpt-4o")
    }
}

/// The base URL proposed for a provider (empty for an unknown one).
pub open spec fn default_url(p: Seq<char>) -> Seq<char> {
    if p == "anthropic"@ {
        "https://api.anthropic.com"@
    } else if p == "openai"@ || p == "openai_codex"@ {
        "https://api.openai.com/v1"@
    } else if p == "openrouter"@ {
        "https://openrouter.ai/api/v1"@
    } else if p == "ollama"@ {
        "http://localhost:11434"@
    } else if p == "deepseek"@ {
        "https://api.deepseek.com"@
    } else if p == "gemini"@ {
        "https://generativelanguage.googleapis.com/v1beta"@
    } else if p == "groq"@ {
        "https://api.groq.com/openai/v1"@
    } else if p == "moonshot"@ {
        "https://api.moonshot.cn/v1"@
    } else if p == "minimax"@ {
        "https://api.minimax.chat/v1"@
    } else if p == "github_copilot"@ {
        "https://api.githubcopilot.com"@
    } else {
        ""@
    }
}

/// Computes `default_url`.
pub fn default_url_for(provider: &str) -> (r: &'static str)
    ensures
        r@ == default_url(provider@),
{
    if str_eq(provider, "anthropic") {
        "https://api.anthropic.com"
    } else if str_eq(provider, "openai") || str_eq(provider, "openai_codex") {
        "https://api.openai.com/v1"
    } else if str_eq(provider, "openrouter") {
        "https://openrouter.ai/api/v1"
    } else if str_eq(provider, "ollama") {
        "http://localhost:11434"
    } else if str_eq(provider, "deepseek") {
        "https://api.deepseek.com"
    } else if str_eq(provider, "gemini") {
        "https://generativelanguage.googleapis.com/v1beta"
    } else if str_eq(provider, "groq") {
        "https://api.groq.com/openai/v1"
    } else if str_eq(provider, "moonshot") {
        "https://api.moonshot.cn/v1"
    } else if str_eq(provider, "minimax") {
        "https://api.minimax.chat/v1"
    } else if str_eq(provider, "github_copilot") {
        "https://api.githubcopilot.com"
    } else {
        ""
    }
}

/// `after` is `before` with only the agent's provider and model replaced.
pub open spec fn agent_choice(before: Config, after: Config, provider: Seq<char>, model: Seq<char>) -> bool {
    &&& (after.agent.provider matches Some(p) && p@ == provider)
    &&& after.agent.model@ == model
    &&& after.agent.streaming == before.agent.streaming
    &&& after.agent.max_tokens == before.agent.max_tokens
    &&& after.agent.temperature == before.agent.temperature
    &&& after.name == before.name
    &&& after.providers == before.providers
    &&& after.custom_providers == before.custom_providers
    &&& after.channels == before.channels
}

/// Record the chosen provider (menu position `index`) and model name.
pub fn apply_provider_choice(config: &mut Config, index: usize, model: String)
    requires
        index < WIZARD_PROVIDER_COUNT,
    ensures
        agent_choice(*old(config), *final(config), wizard_providers()[index as int], model@),
{
    config.agent.provider = Some(String::from_str(wizard_provider(index)));
    config.agent.model = model;
}

/// The model proposed at the model prompt: the configured one, else the
/// provider's default (empty when it has none).
pub fn model_prompt_default(config: &Config, provider: &str) -> (r: String)
    ensures
        r@ == if config.agent.model@.len() > 0 {
            config.agent.model@
        } else {
            match default_model(provider@) {
                Some(m) => m,
                None => Seq::empty(),
            }
        },
{
    if !config.agent.model.as_str().is_empty() {
        config.agent.model.clone()
    } else {
        match default_model_for(provider) {
            Some(m) => String::from_str(m),
            None => String::new(),
        }
    }
}

/// The base URL proposed at the URL prompt: the configured one, else the
/// provider's default.
pub open spec fn url_default(c: Config, provider: Seq<char>) -> Seq<char> {
    match provider_entry(c.providers, provider) {
        Some(e) => match e.base_url {
            Some(u) => u@,
            None => default_url(provider),
        },
        None => default_url(provider),
    }
}

/// Computes `url_default`.
pub fn url_prompt_default(config: &Config, provider: &str) -> (r: String)
    ensures
        r@ == url_default(*config, provider@),
{
    match get_provider_url(config, provider) {
        Some(u) => String::from_str(u),
        None => String::from_str(default_url_for(provider)),
    }
}

/// Apply the answer to the URL prompt: it is stored when a default was
/// proposed (an empty answer then clears the URL), and otherwise only when
/// non-empty.
pub fn apply_base_url(config: &mut Config, provider: &str, had_default: bool, answer: &str)
    ensures
        had_default || answer@.len() > 0 ==> url_set(*old(config), *final(config), provider@, answer@),
        !had_default && answer@.len() == 0 ==> *final(config) == *old(config),
{
    if had_default || !answer.is_empty() {
        set_provider_url(config, provider, answer);
    }
}

/// Apply the answer to the API key prompt: stored only when non-empty.
pub fn apply_api_key(config: &mut Config, provider: &str, key: &str)
    ensures
        key@.len() > 0 ==> key_set(*old(config), *final(config), provider@, key@),
        key@.len() == 0 ==> *final(config) == *old(config),
{
    if !key.is_empty() {
        set_provider_api_key(config, provider, key);
    }
}

// ---------------------------------------------------------------------------
// Telegram and WebSocket answers
// ---------------------------------------------------------------------------

/// The trimmed piece, as a one-element list when it is non-empty.
pub open spec fn kept_piece(p: Seq<char>) -> Seq<Seq<char>> {
    if trim(p).len() > 0 {
        seq![trim(p)]
    } else {
        Seq::empty()
    }
}

/// The user ids of a comma-separated list from position `j` on: each piece
/// trimmed, empty pieces dropped.
pub open spec fn user_ids_from(s: Seq<char>, j: int) -> Seq<Seq<char>>
    decreases s.len() - j,
{
    if j < 0 || j > s.len() {
        Seq::empty()
    } else {
        match find_char(s, ',', j, s.len() as int) {
            Some(i) => if j <= i < s.len() {
                kept_piece(s.subrange(j, i)) + user_ids_from(s, i + 1)
            } else {
                Seq::empty()
            },
            None => kept_piece(s.subrange(j, s.len() as int)),
        }
    }
}

/// The allowed user ids entered as a comma-separated list.
pub open spec fn user_ids(s: Seq<char>) -> Seq<Seq<char>> {
    user_ids_from(s, 0)
}

fn push_kept(out: &mut Vec<String>, piece: &Vec<char>)
    ensures
        views(final(out)@) == views(old(out)@) + kept_piece(piece@),
{
    let t = trim_chars(piece);
    if t.len() > 0 {
        out.push(chars_to_string(&t));
    }
    assert(views(out@) =~= views(old(out)@) + kept_piece(piece@));
}

/// Split the allowed-users answer at commas, trim each id and drop empty ones.
pub fn parse_allowed_users(text: &str) -> (v: Vec<String>)
    ensures
        views(v@) == user_ids(text@),
{
    let c = str_chars(text);
    let mut out: Vec<String> = Vec::new();
    let mut j: usize = 0;
    let mut done = false;
    while !done
        invariant
            j <= c@.len(),
            !done ==> views(out@) + user_ids_from(c@, j as int) == user_ids(c@),
            done ==> views(out@) == user_ids(c@),
        decreases c@.len() - j + (if done {
            0int
        } else {
            1int
        }),
    {
        proof {
            lemma_find_char_props(c@, ',', j as int, c@.len() as int);
        }
        match find_char_exec(&c, ',', j, c.len()) {
            Some(i) => {
                let piece = sub_vec(&c, j, i);
                let ghost before = views(out@);
                push_kept(&mut out, &piece);
                assert(before + user_ids_from(c@, j as int) =~= views(out@) + user_ids_from(c@, i + 1));
                j = i + 1;
            },
            None => {
                let piece = sub_vec(&c, j, c.len());
                let ghost before = views(out@);
                push_kept(&mut out, &piece);
                assert(views(out@) =~= before + user_ids_from(c@, j as int));
                done = true;
            },
        }
    }
    out
}

/// The Telegram section written by the wizard: enabled, streaming, no
/// admins and no proxy.
pub open spec fn wizard_telegram(t: TelegramConfig, token: Seq<char>, allowed: Seq<char>) -> bool {
    &&& t.token@ == token
    &&& views(t.allowed_users@) == user_ids(allowed)
    &&& t.admin_users@.len() == 0
    &&& t.enabled
    &&& t.streaming
    &&& t.proxy is None
}

/// Apply the Telegram answers: when the user chose to set up the bot and
/// gave a token, the section is replaced; otherwise nothing changes.
pub fn apply_telegram(config: &mut Config, set_up: bool, token: String, allowed: &str)
    ensures
        set_up && token@.len() > 0 ==> {
            &&& (final(config).channels.telegram matches Some(t) && wizard_telegram(t, token@, allowed@))
            &&& final(config).channels.websocket == old(config).channels.websocket
            &&& final(config).channels.discord == old(config).channels.discord
            &&& final(config).agent == old(config).agent
            &&& final(config).providers == old(config).providers
        },
        !(set_up && token@.len() > 0) ==> *final(config) == *old(config),
{
    if set_up && !token.as_str().is_empty() {
        let users = parse_allowed_users(allowed);
        config.channels.telegram = Some(
            TelegramConfig {
                token,
                allowed_users: users,
                admin_users: Vec::new(),
                enabled: true,
                streaming: true,
                proxy: None,
            },
        );
    }
}

/// The listen address proposed: the configured one, else `127.0.0.1:8090`.
pub fn default_listen_addr(config: &Config) -> (r: String)
    ensures
        r@ == match config.channels.websocket {
            Some(ws) => ws.listen_addr@,
            None => default_ws_addr(),
        },
{
    match &config.channels.websocket {
        Some(ws) => ws.listen_addr.clone(),
        None => String::from_str("127.0.0.1:8090"),
    }
}

/// Apply the WebSocket answers: disabled removes the section; enabled writes
/// it with the address, 100 clients and 1 MiB messages.
pub fn apply_websocket(config: &mut Config, enable: bool, listen_addr: String)
    ensures
        !enable ==> final(config).channels.websocket is None,
        enable ==> (final(config).channels.websocket matches Some(ws) && ws.enabled && ws.listen_addr@
            == listen_addr@ && ws.max_clients == 100 && ws.max_message_size == 1048576),
        final(config).channels.telegram == old(config).channels.telegram,
        final(config).agent == old(config).agent,
        final(config).providers == old(config).providers,
{
    if enable {
        config.channels.websocket = Some(
            WebSocketConfig { enabled: true, listen_addr, max_clients: 100, max_message_size: 1048576 },
        );
    } else {
        config.channels.websocket = None;
    }
}

// ---------------------------------------------------------------------------
// Existing configuration and summary
// ---------------------------------------------------------------------------

/// What was found at the configuration path.
pub enum ExistingConfig {
    Missing,
    Loaded(Config),
    Unreadable(String),
}

/// How the wizard starts.
pub enum StartDecision {
    /// Start from the defaults.
    Fresh,
    /// Update the loaded configuration.
    Update(Config),
    /// Keep the existing file and stop.
    Keep,
    /// Stop with "Setup cancelled.".
    Cancel,
}

/// Step 1: a missing file starts fresh; a loaded one is updated when the user
/// confirms, else kept; an unreadable one starts fresh when the user
/// confirms, else the wizard is cancelled.
pub fn start_decision(existing: ExistingConfig, confirmed: bool) -> (d: StartDecision)
    ensures
        match existing {
            ExistingConfig::Missing => d is Fresh,
            ExistingConfig::Loaded(c) => if confirmed {
                d matches StartDecision::Update(x) && x == c
            } else {
                d is Keep
            },
            ExistingConfig::Unreadable(_) => if confirmed {
                d is Fresh
            } else {
                d is Cancel
            },
        },
{
    match existing {
        ExistingConfig::Missing => StartDecision::Fresh,
        ExistingConfig::Loaded(c) => if confirmed {
            StartDecision::Update(c)
        } else {
            StartDecision::Keep
        },
        ExistingConfig::Unreadable(_) => if confirmed {
            StartDecision::Fresh
        } else {
            StartDecision::Cancel
        },
    }
}

/// The first `min(4, bytes)` bytes of a token are a whole number of
/// characters (slicing there does not split one).
pub open spec fn token_prefix_ok(token: Seq<char>) -> bool {
    utf8_len(token.take(fit_from(token, 0, 4))) == if utf8_len(token) < 4 {
        utf8_len(token)
    } else {
        4
    }
}

/// Computes `token_prefix_ok`: whether the summary can show the token's
/// first bytes without splitting a character.
pub fn token_prefix_ok_exec(token: &str) -> (r: bool)
    ensures
        r == token_prefix_ok(token@),
{
    let c = str_chars(token);
    let k = fit_prefix_len(&c, 4);
    proof {
        crate::text::lemma_fit_from_fits(c@, 0, 4);
        assert(c@.subrange(0, k as int) =~= c@.take(k as int));
    }
    let n = prefix_utf8_len(&c, k);
    if utf8_len_at_least(&c, 4) {
        n == 4
    } else {
        assert(c@.take(c@.len() as int) =~= c@);
        let total = prefix_utf8_len(&c, c.len());
        n == total
    }
}

/// The Telegram line of the summary: the token's first four bytes, `…`,
/// and `(masked)` when the token is longer.
pub open spec fn masked_token_line(token: Seq<char>) -> Seq<char> {
    "  Telegram:     "@ + token.take(fit_from(token, 0, 4)) + "…"@ + if utf8_len(token) > 4 {
        "(masked)"@
    } else {
        ""@
    }
}

pub open spec fn bool_text(b: bool) -> Seq<char> {
    if b {
        "true"@
    } else {
        "false"@
    }
}

/// The summary shown before saving.
pub open spec fn summary_lines(c: Config) -> Seq<Seq<char>> {
    let base = seq![
        "  Model:        "@ + c.agent.model@,
        "  Provider:     "@ + match c.agent.provider {
            Some(p) => p@,
            None => "default"@,
        },
        "  Temperature:  "@ + c.agent.temperature@,
        "  Max tokens:   "@ + decimal(c.agent.max_tokens as nat),
        "  Streaming:    "@ + bool_text(c.agent.streaming),
    ];
    let tg = match c.channels.telegram {
        Some(t) => seq![masked_token_line(t.token@)],
        None => Seq::empty(),
    };
    let ws = match c.channels.websocket {
        Some(w) => if w.enabled {
            seq!["  WebSocket:    "@ + w.listen_addr@]
        } else {
            Seq::empty()
        },
        None => Seq::empty(),
    };
    base + tg + ws
}

fn line_of(label: &str, value: &str) -> (r: String)
    ensures
        r@ == label@ + value@,
{
    let mut s = str_chars(label);
    push_str(&mut s, value);
    chars_to_string(&s)
}

/// The summary of a configuration, one line per setting.
pub fn config_summary(config: &Config) -> (v: Vec<String>)
    requires
        config.channels.telegram matches Some(t) ==> token_prefix_ok(t.token@),
    ensures
        views(v@) == summary_lines(*config),
{
    let mut v: Vec<String> = Vec::new();
    v.push(line_of("  Model:        ", config.agent.model.as_str()));
    let provider = match &config.agent.provider {
        Some(p) => p.as_str(),
        None => "default",
    };
    v.push(line_of("  Provider:     ", provider));
    v.push(line_of("  Temperature:  ", config.agent.temperature.as_str()));
    let mut mt = str_chars("  Max tokens:   ");
    push_decimal(&mut mt, config.agent.max_tokens as u64);
    v.push(chars_to_string(&mt));
    v.push(line_of("  Streaming:    ", if config.agent.streaming { "true" } else { "false" }));
    let ghost base = views(v@);
    assert(base =~= seq![
        "  Model:        "@ + config.agent.model@,
        "  Provider:     "@ + match config.agent.provider {
            Some(p) => p@,
            None => "default"@,
        },
        "  Temperature:  "@ + config.agent.temperature@,
        "  Max tokens:   "@ + decimal(config.agent.max_tokens as nat),
        "  Streaming:    "@ + bool_text(config.agent.streaming),
    ]);
    match &config.channels.telegram {
        Some(t) => {
            let c = str_chars(t.token.as_str());
            let k = fit_prefix_len(&c, 4);
            let mut line = str_chars("  Telegram:     ");
            let pre = sub_vec(&c, 0, k);
            assert(pre@ =~= c@.take(k as int));
            let pre_s = chars_to_string(&pre);
            push_string(&mut line, &pre_s);
            push_str(&mut line, "…");
            if utf8_len_at_least(&c, 5) {
                push_str(&mut line, "(masked)");
            } else {
                proof {
                    reveal_strlit("");
                    assert(line@ =~= line@ + ""@);
                }
            }
            v.push(chars_to_string(&line));
        },
        None => {},
    }
    let ghost with_tg = views(v@);
    match &config.channels.websocket {
        Some(w) => {
            if w.enabled {
                v.push(line_of("  WebSocket:    ", w.listen_addr.as_str()));
            }
        },
        None => {},
    }
    assert(views(v@) =~= summary_lines(*config));
    v
}

proof fn lemma_user_ids_nonempty(s: Seq<char>, j: int)
    ensures
        forall|k: int| 0 <= k < user_ids_from(s, j).len() ==> #[trigger] user_ids_from(s, j)[k].len() > 0,
    decreases s.len() - j,
{
    if 0 <= j <= s.len() {
        match find_char(s, ',', j, s.len() as int) {
            Some(i) => {
                if j <= i < s.len() {
                    lemma_user_ids_nonempty(s, i + 1);
                    let a = kept_piece(s.subrange(j, i));
                    let b = user_ids_from(s, i + 1);
                    assert forall|k: int| 0 <= k < (a + b).len() implies #[trigger] (a + b)[k].len() > 0 by {
                        if k >= a.len() {
                            assert((a + b)[k] == b[k - a.len()]);
                        }
                    }
                }
            },
            None => {},
        }
    }
}

/// The allowed user ids never include an empty one.
pub proof fn law_user_ids_nonempty(s: Seq<char>, k: int)
    requires
        0 <= k < user_ids(s).len(),
    ensures
        user_ids(s)[k].len() > 0,
{
    lemma_user_ids_nonempty(s, 0);
}

} // verus!
