//! The configuration model that the command handlers and the setup wizard
//! read and edit, and the wizard's provider-entry helpers.
//!
//! Loading and saving the configuration file happens outside the library;
//! these types hold what the logic reads. The temperature is carried as the
//! text that the configuration file gives for it.

use vstd::prelude::*;
use crate::text::str_eq;

verus! {

/// Connection settings of one LLM provider.
#[derive(Debug, Clone, PartialEq, Eq)]
pub struct ProviderEntry {
    pub api_key: Option<String>,
    pub base_url: Option<String>,
    /// Default model for this provider.
    pub model: Option<String>,
    /// Connect directly, bypassing any HTTP proxy.
    pub no_proxy: Option<bool>,
}

impl Default for ProviderEntry {
    fn default() -> (r: Self)
        ensures
            r == entry_or_default(None),
    {
        ProviderEntry { api_key: None, base_url: None, model: None, no_proxy: None }
    }
}

/// The built-in provider sections of the configuration.
#[derive(Debug, Clone, PartialEq, Eq)]
pub struct ProvidersConfig {
    pub anthropic: Option<ProviderEntry>,
    pub openai: Option<ProviderEntry>,
    pub openrouter: Option<ProviderEntry>,
    pub ollama: Option<ProviderEntry>,
    pub deepseek: Option<ProviderEntry>,
    pub gemini: Option<ProviderEntry>,
    pub groq: Option<ProviderEntry>,
    pub moonshot: Option<ProviderEntry>,
    pub minimax: Option<ProviderEntry>,
    pub azure_openai: Option<ProviderEntry>,
    pub github_copilot: Option<ProviderEntry>,
    pub openai_codex: Option<ProviderEntry>,
    pub opencode_go: Option<ProviderEntry>,
    pub glm_coding_plan: Option<ProviderEntry>,
}

/// A user-defined OpenAI-compatible provider.
#[derive(Debug, Clone, PartialEq, Eq)]
pub struct CustomProvider {
    pub name: String,
    pub api_key: Option<String>,
    pub base_url: String,
    /// Model name patterns; the first one is the provider's default model.
    pub model_patterns: Vec<String>,
    pub no_proxy: Option<bool>,
}

/// A channel section that can be switched off.
#[derive(Debug, Clone, PartialEq, Eq)]
pub struct ChannelToggle {
    pub enabled: bool,
}

/// Telegram bot channel settings.
#[derive(Debug, Clone, PartialEq, Eq)]
pub struct TelegramConfig {
    pub token: String,
    pub allowed_users: Vec<String>,
    pub admin_users: Vec<String>,
    pub enabled: bool,
    pub streaming: bool,
    pub proxy: Option<String>,
}

/// WebSocket channel settings.
#[derive(Debug, Clone, PartialEq, Eq)]
pub struct WebSocketConfig {
    pub enabled: bool,
    pub listen_addr: String,
    pub max_clients: usize,
    pub max_message_size: usize,
}

/// The channel sections of the configuration. For the channels whose
/// settings the logic does not read, only the presence of the section is kept.
#[derive(Debug, Clone, PartialEq, Eq)]
pub struct ChannelsConfig {
    pub telegram: Option<TelegramConfig>,
    pub websocket: Option<WebSocketConfig>,
    pub discord: Option<ChannelToggle>,
    pub slack: bool,
    pub matrix: bool,
    pub whatsapp: bool,
    pub email: bool,
    pub dingtalk: bool,
    pub feishu: bool,
    pub wecom: bool,
    pub weixin: bool,
    pub qq: bool,
    pub mochat: bool,
}

/// Agent defaults.
#[derive(Debug, Clone, PartialEq, Eq)]
pub struct AgentSettings {
    pub model: String,
    pub provider: Option<String>,
    pub streaming: bool,
    pub max_tokens: u32,
    /// The sampling temperature as written in the configuration (e.g. `0.7`).
    pub temperature: String,
}

/// The loaded configuration.
#[derive(Debug, Clone, PartialEq, Eq)]
pub struct Config {
    pub name: Option<String>,
    pub agent: AgentSettings,
    pub providers: ProvidersConfig,
    pub custom_providers: Vec<CustomProvider>,
    pub channels: ChannelsConfig,
}

/// The documented defaults: model `gpt-4o`, temperature `0.7`, 4096 tokens,
/// streaming on, no provider, no channel.
pub open spec fn is_default_config(c: Config) -> bool {
    &&& c.name is None
    &&& c.agent.model@ == "gpt-4o"@
    &&& c.agent.provider is None
    &&& c.agent.streaming
    &&& c.agent.max_tokens == 4096
    &&& c.agent.temperature@ == "0.7"@
    &&& no_providers(c.providers)
    &&& c.custom_providers@.len() == 0
    &&& no_channels(c.channels)
}

pub open spec fn no_providers(p: ProvidersConfig) -> bool {
    &&& p.anthropic is None
    &&& p.openai is None
    &&& p.openrouter is None
    &&& p.ollama is None
    &&& p.deepseek is None
    &&& p.gemini is None
    &&& p.groq is None
    &&& p.moonshot is None
    &&& p.minimax is None
    &&& p.azure_openai is None
    &&& p.github_copilot is None
    &&& p.openai_codex is None
    &&& p.opencode_go is None
    &&& p.glm_coding_plan is None
}

pub open spec fn no_channels(c: ChannelsConfig) -> bool {
    &&& c.telegram is None
    &&& c.websocket is None
    &&& c.discord is None
    &&& !c.slack
    &&& !c.matrix
    &&& !c.whatsapp
    &&& !c.email
    &&& !c.dingtalk
    &&& !c.feishu
    &&& !c.wecom
    &&& !c.weixin
    &&& !c.qq
    &&& !c.mochat
}

impl ProvidersConfig {
    /// No provider configured.
    pub fn empty() -> (r: Self)
        ensures
            no_providers(r),
    {
        ProvidersConfig {
            anthropic: None,
            openai: None,
            openrouter: None,
            ollama: None,
            deepseek: None,
            gemini: None,
            groq: None,
            moonshot: None,
            minimax: None,
            azure_openai: None,
            github_copilot: None,
            openai_codex: None,
            opencode_go: None,
            glm_coding_plan: None,
        }
    }
}

impl ChannelsConfig {
    /// No channel configured.
    pub fn empty() -> (r: Self)
        ensures
            no_channels(r),
    {
        ChannelsConfig {
            telegram: None,
            websocket: None,
            discord: None,
            slack: false,
            matrix: false,
            whatsapp: false,
            email: false,
            dingtalk: false,
            feishu: false,
            wecom: false,
            weixin: false,
            qq: false,
            mochat: false,
        }
    }
}

impl Default for Config {
    fn default() -> (r: Self)
        ensures
            is_default_config(r),
    {
        Config {
            name: None,
            agent: AgentSettings {
                model: String::from_str("gpt-4o"),
                provider: None,
                streaming: true,
                max_tokens: 4096,
                temperature: String::from_str("0.7"),
            },
            providers: ProvidersConfig::empty(),
            custom_providers: Vec::new(),
            channels: ChannelsConfig::empty(),
        }
    }
}

/// The provider entry that the setup wizard manages under `name`
/// (`None` for a name outside its provider list or an absent section).
pub open spec fn provider_entry(p: ProvidersConfig, name: Seq<char>) -> Option<ProviderEntry> {
    if name == "anthropic"@ {
        p.anthropic
    } else if name == "openai"@ {
        p.openai
    } else if name == "openrouter"@ {
        p.openrouter
    } else if name == "ollama"@ {
        p.ollama
    } else if name == "deepseek"@ {
        p.deepseek
    } else if name == "gemini"@ {
        p.gemini
    } else if name == "groq"@ {
        p.groq
    } else if name == "moonshot"@ {
        p.moonshot
    } else if name == "minimax"@ {
        p.minimax
    } else if name == "github_copilot"@ {
        p.github_copilot
    } else if name == "openai_codex"@ {
        p.openai_codex
    } else {
        None
    }
}

/// `name` is one of the providers the setup wizard manages.
pub open spec fn is_wizard_provider(name: Seq<char>) -> bool {
    name == "anthropic"@ || name == "openai"@ || name == "openrouter"@ || name == "ollama"@
        || name == "deepseek"@ || name == "gemini"@ || name == "groq"@ || name == "moonshot"@
        || name == "minimax"@ || name == "github_copilot"@ || name == "openai_codex"@
}

/// `p` with the wizard-managed section `name` replaced by `e` (unchanged for
/// any other name).
pub open spec fn with_provider(p: ProvidersConfig, name: Seq<char>, e: Option<ProviderEntry>) -> ProvidersConfig {
    if name == "anthropic"@ {
        ProvidersConfig { anthropic: e, ..p }
    } else if name == "openai"@ {
        ProvidersConfig { openai: e, ..p }
    } else if name == "openrouter"@ {
        ProvidersConfig { openrouter: e, ..p }
    } else if name == "ollama"@ {
        ProvidersConfig { ollama: e, ..p }
    } else if name == "deepseek"@ {
        ProvidersConfig { deepseek: e, ..p }
    } else if name == "gemini"@ {
        ProvidersConfig { gemini: e, ..p }
    } else if name == "groq"@ {
        ProvidersConfig { groq: e, ..p }
    } else if name == "moonshot"@ {
        ProvidersConfig { moonshot: e, ..p }
    } else if name == "minimax"@ {
        ProvidersConfig { minimax: e, ..p }
    } else if name == "github_copilot"@ {
        ProvidersConfig { github_copilot: e, ..p }
    } else if name == "openai_codex"@ {
        ProvidersConfig { openai_codex: e, ..p }
    } else {
        p
    }
}

/// `c` with its providers replaced.
pub open spec fn with_providers(c: Config, p: ProvidersConfig) -> Config {
    Config { providers: p, ..c }
}

/// A mutable reference to the wizard-managed provider entry named `provider`,
/// when that section is present.
pub fn get_provider_entry_mut<'a>(config: &'a mut Config, provider: &str) -> (r: Option<
    &'a mut ProviderEntry,
>)
    ensures
        r is None ==> provider_entry(old(config).providers, provider@) is None && *final(config)
            == *old(config),
        r is Some ==> provider_entry(old(config).providers, provider@) == Some(*r.unwrap())
            && *final(config) == with_providers(
            *old(config),
            with_provider(old(config).providers, provider@, Some(*final(r.unwrap()))),
        ),
{
    if str_eq(provider, "anthropic") {
        config.providers.anthropic.as_mut()
    } else if str_eq(provider, "openai") {
        config.providers.openai.as_mut()
    } else if str_eq(provider, "openrouter") {
        config.providers.openrouter.as_mut()
    } else if str_eq(provider, "ollama") {
        config.providers.ollama.as_mut()
    } else if str_eq(provider, "deepseek") {
        config.providers.deepseek.as_mut()
    } else if str_eq(provider, "gemini") {
        config.providers.gemini.as_mut()
    } else if str_eq(provider, "groq") {
        config.providers.groq.as_mut()
    } else if str_eq(provider, "moonshot") {
        config.providers.moonshot.as_mut()
    } else if str_eq(provider, "minimax") {
        config.providers.minimax.as_mut()
    } else if str_eq(provider, "github_copilot") {
        config.providers.github_copilot.as_mut()
    } else if str_eq(provider, "openai_codex") {
        config.providers.openai_codex.as_mut()
    } else {
        None
    }
}

/// The entry a wizard-managed section holds once it is ensured to exist.
pub open spec fn entry_or_default(e: Option<ProviderEntry>) -> ProviderEntry {
    match e {
        Some(x) => x,
        None => ProviderEntry { api_key: None, base_url: None, model: None, no_proxy: None },
    }
}

/// Make sure the wizard-managed section `provider` exists (a default entry is
/// inserted when it is absent; other names leave the configuration unchanged).
pub fn ensure_provider_entry(config: &mut Config, provider: &str)
    ensures
        *final(config) == with_providers(
            *old(config),
            with_provider(
                old(config).providers,
                provider@,
                Some(entry_or_default(provider_entry(old(config).providers, provider@))),
            ),
        ),
{
    if str_eq(provider, "anthropic") {
        config.providers.anthropic.get_or_insert(ProviderEntry::default());
    } else if str_eq(provider, "openai") {
        config.providers.openai.get_or_insert(ProviderEntry::default());
    } else if str_eq(provider, "openrouter") {
        config.providers.openrouter.get_or_insert(ProviderEntry::default());
    } else if str_eq(provider, "ollama") {
        config.providers.ollama.get_or_insert(ProviderEntry::default());
    } else if str_eq(provider, "deepseek") {
        config.providers.deepseek.get_or_insert(ProviderEntry::default());
    } else if str_eq(provider, "gemini") {
        config.providers.gemini.get_or_insert(ProviderEntry::default());
    } else if str_eq(provider, "groq") {
        config.providers.groq.get_or_insert(ProviderEntry::default());
    } else if str_eq(provider, "moonshot") {
        config.providers.moonshot.get_or_insert(ProviderEntry::default());
    } else if str_eq(provider, "minimax") {
        config.providers.minimax.get_or_insert(ProviderEntry::default());
    } else if str_eq(provider, "github_copilot") {
        config.providers.github_copilot.get_or_insert(ProviderEntry::default());
    } else if str_eq(provider, "openai_codex") {
        config.providers.openai_codex.get_or_insert(ProviderEntry::default());
    }
}

/// The base URL configured for the wizard-managed provider `provider`.
pub fn get_provider_url<'a>(config: &'a Config, provider: &str) -> (r: Option<&'a str>)
    ensures
        match provider_entry(config.providers, provider@) {
            Some(e) => match e.base_url {
                Some(u) => r is Some && r.unwrap()@ == u@,
                None => r is None,
            },
            None => r is None,
        },
{
    let entry: Option<&ProviderEntry> = if str_eq(provider, "anthropic") {
        config.providers.anthropic.as_ref()
    } else if str_eq(provider, "openai") {
        config.providers.openai.as_ref()
    } else if str_eq(provider, "openrouter") {
        config.providers.openrouter.as_ref()
    } else if str_eq(provider, "ollama") {
        config.providers.ollama.as_ref()
    } else if str_eq(provider, "deepseek") {
        config.providers.deepseek.as_ref()
    } else if str_eq(provider, "gemini") {
        config.providers.gemini.as_ref()
    } else if str_eq(provider, "groq") {
        config.providers.groq.as_ref()
    } else if str_eq(provider, "moonshot") {
        config.providers.moonshot.as_ref()
    } else if str_eq(provider, "minimax") {
        config.providers.minimax.as_ref()
    } else if str_eq(provider, "github_copilot") {
        config.providers.github_copilot.as_ref()
    } else if str_eq(provider, "openai_codex") {
        config.providers.openai_codex.as_ref()
    } else {
        None
    };
    match entry {
        Some(e) => match &e.base_url {
            Some(u) => Some(u.as_str()),
            None => None,
        },
        None => None,
    }
}

/// `opt` holds a string exactly when `text` is non-empty, and then holds `text`.
pub open spec fn set_or_cleared(opt: Option<String>, text: Seq<char>) -> bool {
    if text.len() == 0 {
        opt is None
    } else {
        opt is Some && opt.unwrap()@ == text
    }
}

/// `after` is `before` with the base URL of the wizard-managed provider
/// `provider` set to `url` (cleared when empty), its section created when
/// absent and its API key kept; any other name changes nothing.
pub open spec fn url_set(before: Config, after: Config, provider: Seq<char>, url: Seq<char>) -> bool {
    if !is_wizard_provider(provider) {
        after == before
    } else {
        let prior = entry_or_default(provider_entry(before.providers, provider));
        &&& provider_entry(after.providers, provider) matches Some(e) && e.api_key == prior.api_key
            && set_or_cleared(e.base_url, url)
        &&& after == with_providers(
            before,
            with_provider(before.providers, provider, provider_entry(after.providers, provider)),
        )
    }
}

/// `after` is `before` with the API key of the wizard-managed provider
/// `provider` set to `key` (cleared when empty), its section created when
/// absent and its base URL kept; any other name changes nothing.
pub open spec fn key_set(before: Config, after: Config, provider: Seq<char>, key: Seq<char>) -> bool {
    if !is_wizard_provider(provider) {
        after == before
    } else {
        let prior = entry_or_default(provider_entry(before.providers, provider));
        &&& provider_entry(after.providers, provider) matches Some(e) && e.base_url == prior.base_url
            && set_or_cleared(e.api_key, key)
        &&& after == with_providers(
            before,
            with_provider(before.providers, provider, provider_entry(after.providers, provider)),
        )
    }
}

/// A `Some` holding `text`, or `None` for the empty string.
fn non_empty_string(text: &str) -> (r: Option<String>)
    ensures
        set_or_cleared(r, text@),
{
    let v = String::from_str(text);
    if text.is_empty() {
        None
    } else {
        Some(v)
    }
}

/// Set (or, with an empty `url`, clear) the base URL of a wizard-managed provider,
/// creating its section when absent. Other names leave the configuration unchanged.
pub fn set_provider_url(config: &mut Config, provider: &str, url: &str)
    ensures
        url_set(*old(config), *final(config), provider@, url@),
{
    ensure_provider_entry(config, provider);
    let value = non_empty_string(url);
    if let Some(entry) = get_provider_entry_mut(config, provider) {
        entry.base_url = value;
    }
}

/// Set (or, with an empty `key`, clear) the API key of a wizard-managed provider,
/// creating its section when absent. Other names leave the configuration unchanged.
pub fn set_provider_api_key(config: &mut Config, provider: &str, key: &str)
    ensures
        key_set(*old(config), *final(config), provider@, key@),
{
    ensure_provider_entry(config, provider);
    let value = non_empty_string(key);
    if let Some(entry) = get_provider_entry_mut(config, provider) {
        entry.api_key = value;
    }
}

} // verus!
