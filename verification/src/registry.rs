//! Provider registry: providers looked up by exact name, with a default
//! provider as fallback, and the registrations derived from a configuration.
//!
//! The registry is generic over the provider handle it stores; built from a
//! configuration it stores the connection settings of each provider, from
//! which the caller constructs the clients.

use vstd::prelude::*;
use crate::config::Config;
use crate::config::CustomProvider;
use crate::config::ProviderEntry;
use crate::keyed::KeyedMap;
use crate::text::views;

verus! {

/// Default limit of concurrent in-flight provider requests.
pub const DEFAULT_CONCURRENCY_LIMIT: usize = 4;

/// Registry of providers of type `P`, keyed by name.
pub struct ProviderRegistry<P> {
    providers: KeyedMap<P>,
    default_provider: Option<String>,
    concurrency_limit: usize,
}

impl<P> ProviderRegistry<P> {
    /// The registered names, in registration order.
    pub closed spec fn names(&self) -> Seq<Seq<char>> {
        self.providers.keys()
    }

    /// The provider registered under `k`.
    pub closed spec fn lookup(&self, k: Seq<char>) -> Option<P> {
        self.providers.get_spec(k)
    }

    /// The default provider's name.
    pub closed spec fn default_name(&self) -> Option<Seq<char>> {
        match self.default_provider {
            Some(d) => Some(d@),
            None => None,
        }
    }

    /// Limit of concurrent in-flight requests.
    pub closed spec fn limit(&self) -> usize {
        self.concurrency_limit
    }

    /// Names are distinct and the default provider, if any, is registered.
    pub closed spec fn wf(&self) -> bool {
        &&& self.providers.wf()
        &&& (self.default_provider matches Some(d) ==> self.providers.get_spec(d@) is Some)
    }

    /// `k` is registered exactly when it is one of the names.
    pub proof fn lemma_lookup_names(&self, k: Seq<char>)
        ensures
            self.lookup(k) is Some <==> self.names().contains(k),
    {
        self.providers.lemma_get_keys(k);
    }

    /// An empty registry.
    pub fn new() -> (r: Self)
        ensures
            r.wf(),
            r.names() == Seq::<Seq<char>>::empty(),
            r.default_name() is None,
            r.limit() == DEFAULT_CONCURRENCY_LIMIT,
            forall|k: Seq<char>| #[trigger] r.lookup(k) is None,
    {
        Self::with_concurrency_limit(DEFAULT_CONCURRENCY_LIMIT)
    }

    /// An empty registry with a custom limit of concurrent in-flight requests.
    pub fn with_concurrency_limit(limit: usize) -> (r: Self)
        ensures
            r.wf(),
            r.names() == Seq::<Seq<char>>::empty(),
            r.default_name() is None,
            r.limit() == limit,
            forall|k: Seq<char>| #[trigger] r.lookup(k) is None,
    {
        ProviderRegistry { providers: KeyedMap::new(), default_provider: None, concurrency_limit: limit }
    }

    /// Limit of concurrent in-flight provider requests.
    pub fn concurrency_limit(&self) -> (n: usize)
        ensures
            n == self.limit(),
    {
        self.concurrency_limit
    }

    /// Register a provider under `name`, replacing any provider registered
    /// under the same name.
    pub fn register(&mut self, name: &str, provider: P)
        requires
            old(self).wf(),
        ensures
            final(self).wf(),
            forall|k: Seq<char>| #[trigger] final(self).lookup(k) == if k == name@ {
                Some(provider)
            } else {
                old(self).lookup(k)
            },
            final(self).names() == if old(self).names().contains(name@) {
                old(self).names()
            } else {
                old(self).names().push(name@)
            },
            final(self).default_name() == old(self).default_name(),
            final(self).limit() == old(self).limit(),
    {
        self.providers.insert(name, provider);
        assert(self.default_provider matches Some(d) ==> self.providers.get_spec(d@) is Some);
    }

    /// Make `name` the default provider, when it is registered.
    pub fn set_default(&mut self, name: &str)
        requires
            old(self).wf(),
        ensures
            final(self).wf(),
            final(self).default_name() == if old(self).lookup(name@) is Some {
                Some(name@)
            } else {
                old(self).default_name()
            },
            final(self).names() == old(self).names(),
            forall|k: Seq<char>| #[trigger] final(self).lookup(k) == old(self).lookup(k),
            final(self).limit() == old(self).limit(),
    {
        if self.providers.contains(name) {
            self.default_provider = Some(String::from_str(name));
        }
    }

    /// The provider used for `name`: the one registered under it, else the default.
    pub open spec fn resolve(&self, name: Seq<char>) -> Option<P> {
        match self.lookup(name) {
            Some(p) => Some(p),
            None => match self.default_name() {
                Some(d) => self.lookup(d),
                None => None,
            },
        }
    }

    /// A registered name resolves to its own provider; an unknown name falls
    /// back to the default, which is always a registered provider.
    pub proof fn law_resolve_by_name_then_default(&self, name: Seq<char>)
        requires
            self.wf(),
        ensures
            self.lookup(name) matches Some(p) ==> self.resolve(name) == Some(p),
            self.lookup(name) is None && self.default_name() is Some ==> self.resolve(name) is Some,
            self.lookup(name) is None && self.default_name() is None ==> self.resolve(name) is None,
    {
    }

    /// The provider registered under `name`, falling back to the default provider.
    pub fn get_provider_by_name(&self, name: &str) -> (r: Option<&P>)
        ensures
            match r {
                Some(p) => self.resolve(name@) == Some(*p),
                None => self.resolve(name@) is None,
            },
    {
        match self.providers.get(name) {
            Some(p) => Some(p),
            None => match &self.default_provider {
                Some(d) => self.providers.get(d.as_str()),
                None => None,
            },
        }
    }

    /// The provider for an exact provider name, or the default as fallback.
    pub fn get_provider(&self, provider_name: &str) -> (r: Option<&P>)
        ensures
            match r {
                Some(p) => self.resolve(provider_name@) == Some(*p),
                None => self.resolve(provider_name@) is None,
            },
    {
        self.get_provider_by_name(provider_name)
    }

    /// All registered provider names.
    pub fn provider_names(&self) -> (v: Vec<String>)
        ensures
            views(v@) == self.names(),
    {
        self.providers.key_list()
    }

    /// The name of the default provider, if any.
    pub fn default_provider_name(&self) -> (r: Option<&str>)
        requires
            self.wf(),
        ensures
            match r {
                Some(s) => self.default_name() == Some(s@) && self.lookup(s@) is Some,
                None => self.default_name() is None,
            },
    {
        match &self.default_provider {
            Some(d) => Some(d.as_str()),
            None => None,
        }
    }
}

// ---------------------------------------------------------------------------
// Registrations derived from a configuration
// ---------------------------------------------------------------------------

impl<P> Default for ProviderRegistry<P> {
    /// An empty registry.
    fn default() -> (r: Self)
        ensures
            r.wf(),
            r.names() == Seq::<Seq<char>>::empty(),
            r.default_name() is None,
            r.limit() == DEFAULT_CONCURRENCY_LIMIT,
    {
        Self::new()
    }
}

/// Connection settings from which a provider client is built.
#[derive(Debug, Clone)]
pub enum ProviderSettings {
    /// The Anthropic Messages API; `model` `None` means the client's default
    /// Sonnet model and `base_url` `None` the API's own URL.
    Anthropic { api_key: String, model: Option<String>, base_url: Option<String> },
    /// An OpenAI-compatible chat-completions API.
    OpenAiCompat { api_key: String, base_url: String, model: String, no_proxy: bool },
}

/// Provider settings as plain text.
pub enum SettingsView {
    Anthropic(Seq<char>, Option<Seq<char>>, Option<Seq<char>>),
    OpenAiCompat(Seq<char>, Seq<char>, Seq<char>, bool),
}

impl View for ProviderSettings {
    type V = SettingsView;

    open spec fn view(&self) -> SettingsView {
        match self {
            ProviderSettings::Anthropic { api_key, model, base_url } => SettingsView::Anthropic(
                api_key@,
                opt_text(*model),
                opt_text(*base_url),
            ),
            ProviderSettings::OpenAiCompat { api_key, base_url, model, no_proxy } =>
                SettingsView::OpenAiCompat(api_key@, base_url@, model@, *no_proxy),
        }
    }
}

pub open spec fn opt_text(o: Option<String>) -> Option<Seq<char>> {
    match o {
        Some(s) => Some(s@),
        None => None,
    }
}

/// The text of `o`, or `d` when absent.
pub open spec fn text_or(o: Option<String>, d: Seq<char>) -> Seq<char> {
    match o {
        Some(s) => s@,
        None => d,
    }
}

/// An OpenAI-compatible provider, registered when its section has an API key.
pub open spec fn keyed_compat(e: Option<ProviderEntry>, name: Seq<char>, default_url: Seq<char>) -> Seq<(Seq<char>, SettingsView)> {
    match e {
        Some(x) => match x.api_key {
            Some(k) => seq![
                (
                    name,
                    SettingsView::OpenAiCompat(
                        k@,
                        text_or(x.base_url, default_url),
                        text_or(x.model, Seq::empty()),
                        match x.no_proxy {
                            Some(b) => b,
                            None => false,
                        },
                    ),
                ),
            ],
            None => Seq::empty(),
        },
        None => Seq::empty(),
    }
}

/// The Anthropic provider, registered when its section has an API key.
pub open spec fn keyed_anthropic(e: Option<ProviderEntry>) -> Seq<(Seq<char>, SettingsView)> {
    match e {
        Some(x) => match x.api_key {
            Some(k) => seq![
                (
                    "anthropic"@,
                    SettingsView::Anthropic(
                        k@,
                        opt_text(x.model),
                        opt_text(x.base_url),
                    ),
                ),
            ],
            None => Seq::empty(),
        },
        None => Seq::empty(),
    }
}

/// Ollama runs locally: registered whenever its section is present, never
/// through a proxy.
pub open spec fn local_ollama(e: Option<ProviderEntry>) -> Seq<(Seq<char>, SettingsView)> {
    match e {
        Some(x) => seq![
            (
                "ollama"@,
                SettingsView::OpenAiCompat(
                    text_or(x.api_key, Seq::empty()),
                    text_or(x.base_url, "http://localhost:11434/v1"@),
                    text_or(x.model, Seq::empty()),
                    true,
                ),
            ),
        ],
        None => Seq::empty(),
    }
}

/// The registration of one custom provider.
pub open spec fn custom_settings(c: CustomProvider) -> (Seq<char>, SettingsView) {
    (
        c.name@,
        SettingsView::OpenAiCompat(
            text_or(c.api_key, Seq::empty()),
            c.base_url@,
            if c.model_patterns@.len() > 0 {
                c.model_patterns@[0]@
            } else {
                Seq::empty()
            },
            match c.no_proxy {
                Some(b) => b,
                None => false,
            },
        ),
    )
}

/// The registrations a configuration asks for, in registration order.
pub open spec fn registration_plan(c: Config) -> Seq<(Seq<char>, SettingsView)> {
    keyed_anthropic(c.providers.anthropic) + keyed_compat(
        c.providers.openai,
        "openai"@,
        "https://api.openai.com/v1"@,
    ) + keyed_compat(c.providers.deepseek, "deepseek"@, "https://api.deepseek.com/v1"@)
        + keyed_compat(c.providers.groq, "groq"@, "https://api.groq.com/openai/v1"@)
        + keyed_compat(c.providers.openrouter, "openrouter"@, "https://openrouter.ai/api/v1"@)
        + local_ollama(c.providers.ollama) + keyed_compat(
        c.providers.opencode_go,
        "opencode_go"@,
        "https://opencode.ai/zen/go/v1"@,
    ) + Seq::new(c.custom_providers@.len(), |i: int| custom_settings(c.custom_providers@[i]))
}

/// The registered names in order of first registration.
pub open spec fn first_names<V>(plan: Seq<(Seq<char>, V)>) -> Seq<Seq<char>>
    decreases plan.len(),
{
    if plan.len() == 0 {
        Seq::empty()
    } else {
        let prev = first_names(plan.drop_last());
        if prev.contains(plan.last().0) {
            prev
        } else {
            prev.push(plan.last().0)
        }
    }
}

/// The first name registered is the plan's first entry.
pub proof fn lemma_first_names_head<V>(plan: Seq<(Seq<char>, V)>)
    requires
        plan.len() > 0,
    ensures
        first_names(plan).len() > 0,
        first_names(plan)[0] == plan[0].0,
    decreases plan.len(),
{
    let prev = first_names(plan.drop_last());
    if plan.len() > 1 {
        lemma_first_names_head(plan.drop_last());
        assert(plan.drop_last()[0] == plan[0]);
        if !prev.contains(plan.last().0) {
            assert(prev.push(plan.last().0)[0] == prev[0]);
        }
    } else {
        assert(plan.drop_last().len() == 0);
        assert(prev == Seq::<Seq<char>>::empty());
        assert(!prev.contains(plan.last().0));
        assert(plan.last() == plan[0]);
    }
}

/// The value of the last registration under `k` (later ones replace earlier ones).
pub open spec fn last_value<V>(plan: Seq<(Seq<char>, V)>, k: Seq<char>) -> Option<V>
    decreases plan.len(),
{
    if plan.len() == 0 {
        None
    } else if plan.last().0 == k {
        Some(plan.last().1)
    } else {
        last_value(plan.drop_last(), k)
    }
}

/// The settings registered under `k`, as plain text.
pub open spec fn settings_at(r: ProviderRegistry<ProviderSettings>, k: Seq<char>) -> Option<SettingsView> {
    match r.lookup(k) {
        Some(p) => Some(p@),
        None => None,
    }
}

fn text_or_exec(o: &Option<String>, d: &str) -> (s: String)
    ensures
        s@ == text_or(*o, d@),
{
    match o {
        Some(x) => x.clone(),
        None => String::from_str(d),
    }
}

fn push_keyed_compat(plan: &mut Vec<(String, ProviderSettings)>, e: &Option<ProviderEntry>, name: &str, default_url: &str)
    ensures
        plan_view(final(plan)@) == plan_view(old(plan)@) + keyed_compat(*e, name@, default_url@),
{
    if let Some(x) = e {
        if let Some(k) = &x.api_key {
            let no_proxy = match x.no_proxy {
                Some(b) => b,
                None => false,
            };
            let settings = ProviderSettings::OpenAiCompat {
                api_key: k.clone(),
                base_url: text_or_exec(&x.base_url, default_url),
                model: text_or_exec(&x.model, ""),
                no_proxy,
            };
            proof {
                assert(""@ =~= Seq::<char>::empty()) by {
                    reveal_strlit("");
                }
            }
            plan.push((String::from_str(name), settings));
        }
    }
    assert(plan_view(plan@) =~= plan_view(old(plan)@) + keyed_compat(*e, name@, default_url@));
}

/// The views of planned registrations.
pub open spec fn plan_view(p: Seq<(String, ProviderSettings)>) -> Seq<(Seq<char>, SettingsView)> {
    Seq::new(p.len(), |i: int| (p[i].0@, p[i].1@))
}

/// The registrations a configuration asks for.
pub fn provider_plan(config: &Config) -> (plan: Vec<(String, ProviderSettings)>)
    ensures
        plan_view(plan@) == registration_plan(*config),
{
    let mut plan: Vec<(String, ProviderSettings)> = Vec::new();
    assert(plan_view(plan@) =~= Seq::<(Seq<char>, SettingsView)>::empty());
    if let Some(x) = &config.providers.anthropic {
        if let Some(k) = &x.api_key {
            let settings = ProviderSettings::Anthropic {
                api_key: k.clone(),
                model: x.model.clone(),
                base_url: x.base_url.clone(),
            };
            plan.push((String::from_str("anthropic"), settings));
        }
    }
    assert(plan_view(plan@) =~= keyed_anthropic(config.providers.anthropic));
    push_keyed_compat(&mut plan, &config.providers.openai, "openai", "https://api.openai.com/v1");
    push_keyed_compat(&mut plan, &config.providers.deepseek, "deepseek", "https://api.deepseek.com/v1");
    push_keyed_compat(&mut plan, &config.providers.groq, "groq", "https://api.groq.com/openai/v1");
    push_keyed_compat(&mut plan, &config.providers.openrouter, "openrouter", "https://openrouter.ai/api/v1");
    let ghost before_ollama = plan_view(plan@);
    if let Some(x) = &config.providers.ollama {
        let settings = ProviderSettings::OpenAiCompat {
            api_key: text_or_exec(&x.api_key, ""),
            base_url: text_or_exec(&x.base_url, "http://localhost:11434/v1"),
            model: text_or_exec(&x.model, ""),
            no_proxy: true,
        };
        proof {
            assert(""@ =~= Seq::<char>::empty()) by {
                reveal_strlit("");
            }
        }
        plan.push((String::from_str("ollama"), settings));
    }
    assert(plan_view(plan@) =~= before_ollama + local_ollama(config.providers.ollama));
    push_keyed_compat(&mut plan, &config.providers.opencode_go, "opencode_go", "https://opencode.ai/zen/go/v1");
    let ghost builtin = plan_view(plan@);
    let customs = &config.custom_providers;
    let mut i: usize = 0;
    while i < customs.len()
        invariant
            i <= customs.len(),
            plan_view(plan@) == builtin + Seq::new(i as nat, |m: int| custom_settings(customs@[m])),
        decreases customs.len() - i,
    {
        let c = &customs[i];
        let model = if c.model_patterns.len() > 0 {
            c.model_patterns[0].clone()
        } else {
            String::new()
        };
        let no_proxy = match c.no_proxy {
            Some(b) => b,
            None => false,
        };
        let settings = ProviderSettings::OpenAiCompat {
            api_key: text_or_exec(&c.api_key, ""),
            base_url: c.base_url.clone(),
            model,
            no_proxy,
        };
        proof {
            assert(""@ =~= Seq::<char>::empty()) by {
                reveal_strlit("");
            }
        }
        let ghost old_plan = plan@;
        let key = c.name.clone();
        assert((key@, settings@) == custom_settings(customs@[i as int]));
        plan.push((key, settings));
        assert(plan_view(plan@) =~= plan_view(old_plan).push(custom_settings(customs@[i as int])));
        assert(plan_view(plan@) =~= builtin + Seq::new((i + 1) as nat, |m: int| custom_settings(customs@[m])));
        i = i + 1;
    }
    plan
}

/// Registrations appended after `p` decide a name when they hold it;
/// otherwise `p` does.
pub proof fn lemma_last_value_append<V>(p: Seq<(Seq<char>, V)>, q: Seq<(Seq<char>, V)>, k: Seq<char>)
    ensures
        last_value(p + q, k) == (if last_value(q, k) is Some {
            last_value(q, k)
        } else {
            last_value(p, k)
        }),
    decreases q.len(),
{
    if q.len() > 0 {
        assert((p + q).drop_last() =~= p + q.drop_last());
        assert((p + q).last() == q.last());
        lemma_last_value_append(p, q.drop_last(), k);
    } else {
        assert(p + q =~= p);
    }
}

/// A name that no registration of `q` carries has no value in `q`.
pub proof fn lemma_last_value_absent<V>(q: Seq<(Seq<char>, V)>, k: Seq<char>)
    requires
        forall|i: int| 0 <= i < q.len() ==> #[trigger] q[i].0 != k,
    ensures
        last_value(q, k) is None,
    decreases q.len(),
{
    if q.len() > 0 {
        assert(q.last() == q[q.len() - 1]);
        lemma_last_value_absent(q.drop_last(), k);
    }
}

/// The value of `k` in at most one registration.
proof fn lemma_last_value_single<V>(q: Seq<(Seq<char>, V)>, k: Seq<char>)
    requires
        q.len() <= 1,
    ensures
        last_value(q, k) == (if q.len() == 1 && q[0].0 == k {
            Some(q[0].1)
        } else {
            None
        }),
{
    if q.len() == 1 {
        assert(q.drop_last().len() == 0);
        assert(last_value(q.drop_last(), k) is None);
        assert(q.last() == q[0]);
    } else {
        assert(last_value(q, k) is None);
    }
}

/// Law: an OpenAI-compatible provider section (`openai`, `deepseek`, `groq`,
/// `openrouter`, `opencode_go`) that has an API key is registered under its
/// name, unless a custom provider takes that name, with that key and with
/// the configured base URL; the built-in URL `default_url` of that provider
/// is used exactly when the section sets no base URL.
pub proof fn law_compat_base_url(c: Config, name: Seq<char>, x: ProviderEntry, default_url: Seq<char>)
    requires
        (name == "openai"@ && c.providers.openai == Some(x) && default_url == "https://api.openai.com/v1"@)
            || (name == "deepseek"@ && c.providers.deepseek == Some(x) && default_url == "https://api.deepseek.com/v1"@)
            || (name == "groq"@ && c.providers.groq == Some(x) && default_url == "https://api.groq.com/openai/v1"@)
            || (name == "openrouter"@ && c.providers.openrouter == Some(x) && default_url == "https://openrouter.ai/api/v1"@)
            || (name == "opencode_go"@ && c.providers.opencode_go == Some(x) && default_url == "https://opencode.ai/zen/go/v1"@),
        x.api_key is Some,
        forall|i: int| 0 <= i < c.custom_providers@.len() ==> #[trigger] c.custom_providers@[i].name@ != name,
    ensures
        last_value(registration_plan(c), name) matches Some(SettingsView::OpenAiCompat(key, url, _, _))
            && key == x.api_key.unwrap()@
            && (x.base_url matches Some(u) ==> url == u@)
            && (x.base_url is None ==> url == default_url),
{
    reveal_strlit("anthropic");
    reveal_strlit("openai");
    reveal_strlit("deepseek");
    reveal_strlit("groq");
    reveal_strlit("openrouter");
    reveal_strlit("ollama");
    reveal_strlit("opencode_go");
    assert("openai"@[1] != "ollama"@[1]);
    let p = c.providers;
    let s0 = keyed_anthropic(p.anthropic);
    let s1 = keyed_compat(p.openai, "openai"@, "https://api.openai.com/v1"@);
    let s2 = keyed_compat(p.deepseek, "deepseek"@, "https://api.deepseek.com/v1"@);
    let s3 = keyed_compat(p.groq, "groq"@, "https://api.groq.com/openai/v1"@);
    let s4 = keyed_compat(p.openrouter, "openrouter"@, "https://openrouter.ai/api/v1"@);
    let s5 = local_ollama(p.ollama);
    let s6 = keyed_compat(p.opencode_go, "opencode_go"@, "https://opencode.ai/zen/go/v1"@);
    let s7 = Seq::new(c.custom_providers@.len(), |i: int| custom_settings(c.custom_providers@[i]));
    assert(registration_plan(c) == s0 + s1 + s2 + s3 + s4 + s5 + s6 + s7);
    lemma_last_value_absent(s7, name);
    lemma_last_value_append(s0 + s1 + s2 + s3 + s4 + s5 + s6, s7, name);
    lemma_last_value_append(s0 + s1 + s2 + s3 + s4 + s5, s6, name);
    lemma_last_value_append(s0 + s1 + s2 + s3 + s4, s5, name);
    lemma_last_value_append(s0 + s1 + s2 + s3, s4, name);
    lemma_last_value_append(s0 + s1 + s2, s3, name);
    lemma_last_value_append(s0 + s1, s2, name);
    lemma_last_value_append(s0, s1, name);
    lemma_last_value_single(s0, name);
    lemma_last_value_single(s1, name);
    lemma_last_value_single(s2, name);
    lemma_last_value_single(s3, name);
    lemma_last_value_single(s4, name);
    lemma_last_value_single(s5, name);
    lemma_last_value_single(s6, name);
    assert("anthropic"@.len() == 9 && "openai"@.len() == 6 && "deepseek"@.len() == 8);
    assert("groq"@.len() == 4 && "openrouter"@.len() == 10 && "ollama"@.len() == 6);
    assert("opencode_go"@.len() == 11);
    if name == "openai"@ {
        assert(p.openai == Some(x));
        assert(s1.len() == 1);
        assert(last_value(s1, name) == Some(s1[0].1));
    } else if name == "deepseek"@ {
        assert(p.deepseek == Some(x));
        assert(s2.len() == 1);
        assert(last_value(s2, name) == Some(s2[0].1));
    } else if name == "groq"@ {
        assert(p.groq == Some(x));
        assert(s3.len() == 1);
        assert(last_value(s3, name) == Some(s3[0].1));
    } else if name == "openrouter"@ {
        assert(p.openrouter == Some(x));
        assert(s4.len() == 1);
        assert(last_value(s4, name) == Some(s4[0].1));
    } else {
        assert(p.opencode_go == Some(x));
        assert(s6.len() == 1);
        assert(last_value(s6, name) == Some(s6[0].1));
    }
}

impl ProviderRegistry<ProviderSettings> {
    /// Build the registry from a configuration: every registration of
    /// `registration_plan` (a later one under the same name replaces an
    /// earlier one); the default provider is the configured one when it is
    /// registered, otherwise the first provider registered, if there is any.
    pub fn from_config(config: &Config) -> (r: Self)
        ensures
            r.wf(),
            forall|k: Seq<char>| #[trigger] settings_at(r, k) == last_value(registration_plan(*config), k),
            forall|k: Seq<char>| #[trigger] r.lookup(k) is Some <==> r.names().contains(k),
            r.default_name() matches Some(d) ==> r.lookup(d) is Some,
            r.default_name() is None <==> r.names().len() == 0,
            (config.agent.provider matches Some(n) && r.lookup(n@) is Some) ==> r.default_name() == Some(config.agent.provider.unwrap()@),
            !(config.agent.provider matches Some(n) && r.lookup(n@) is Some) && r.names().len() > 0 ==> r.default_name() == Some(r.names()[0]),
            r.names() == first_names(registration_plan(*config)),
            registration_plan(*config).len() > 0 ==> r.names()[0] == registration_plan(*config)[0].0,
            !(config.agent.provider matches Some(n) && r.lookup(n@) is Some) && registration_plan(*config).len() > 0
                ==> r.default_name() == Some(registration_plan(*config)[0].0),
            r.limit() == DEFAULT_CONCURRENCY_LIMIT,
    {
        let plan = provider_plan(config);
        let ghost pv = plan_view(plan@);
        let mut r: Self = Self::new();
        let mut i: usize = 0;
        while i < plan.len()
            invariant
                i <= plan.len(),
                pv == plan_view(plan@),
                r.wf(),
                r.default_name() is None,
                r.limit() == DEFAULT_CONCURRENCY_LIMIT,
                forall|k: Seq<char>| #[trigger] settings_at(r, k) == last_value(pv.take(i as int), k),
                r.names() == first_names(pv.take(i as int)),
            decreases plan.len() - i,
        {
            let (name, settings) = (&plan[i].0, plan[i].1.clone_settings());
            let ghost prev = r;
            r.register(name.as_str(), settings);
            assert forall|k: Seq<char>| #[trigger] settings_at(r, k) == last_value(pv.take(i + 1), k) by {
                assert(pv.take(i + 1).drop_last() =~= pv.take(i as int));
                assert(settings_at(prev, k) == last_value(pv.take(i as int), k));
            }
            assert(pv.take(i + 1).drop_last() =~= pv.take(i as int));
            i = i + 1;
        }
        assert(pv.take(plan.len() as int) =~= pv);
        let ghost loaded = r;
        match &config.agent.provider {
            Some(n) => r.set_default(n.as_str()),
            None => {},
        }
        if r.default_provider.is_none() && r.providers.len() > 0 {
            let first = r.providers.entry(0).0.clone();
            proof {
                r.providers.lemma_values(0);
            }
            r.set_default(first.as_str());
        }
        proof {
            assert forall|k: Seq<char>| #[trigger] settings_at(r, k) == last_value(registration_plan(*config), k) by {
                assert(r.lookup(k) == loaded.lookup(k));
                assert(settings_at(loaded, k) == last_value(pv.take(plan.len() as int), k));
            }
            assert forall|k: Seq<char>| #[trigger] r.lookup(k) is Some <==> r.names().contains(k) by {
                r.lemma_lookup_names(k);
            }
            if r.names().len() == 0 {
                if let Some(d) = r.default_name() {
                    r.lemma_lookup_names(d);
                }
            }
            if pv.len() > 0 {
                lemma_first_names_head(pv);
            }
        }
        r
    }
}

impl ProviderSettings {
    /// A copy of these settings.
    pub fn clone_settings(&self) -> (r: Self)
        ensures
            r@ == self@,
    {
        match self {
            ProviderSettings::Anthropic { api_key, model, base_url } => ProviderSettings::Anthropic {
                api_key: api_key.clone(),
                model: match model {
                    Some(m) => Some(m.clone()),
                    None => None,
                },
                base_url: match base_url {
                    Some(u) => Some(u.clone()),
                    None => None,
                },
            },
            ProviderSettings::OpenAiCompat { api_key, base_url, model, no_proxy } =>
                ProviderSettings::OpenAiCompat {
                api_key: api_key.clone(),
                base_url: base_url.clone(),
                model: model.clone(),
                no_proxy: *no_proxy,
            },
        }
    }
}

} // verus!
