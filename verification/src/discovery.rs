//! Model discovery: which providers can list their models, how a listing
//! becomes model metadata, and the catalog that caches the lists.
//!
//! Fetching a provider's `/models` endpoint is done by the caller; the
//! catalog decides which providers need a fetch, records each outcome and
//! orders the merged result.

use vstd::prelude::*;
use crate::config::Config;
use crate::config::CustomProvider;
use crate::config::ProviderEntry;
use crate::keyed::KeyedMap;
use crate::lexical::lex_less;
use crate::lexical::lex_lt;
use crate::lexical::lemma_lex_asymmetric;
use crate::lexical::lemma_lex_irreflexive;
use crate::lexical::lemma_lex_transitive;
use crate::text::chars_to_string;
use crate::text::push_str;
use crate::text::push_string;
use crate::text::str_chars;

verus! {

/// Cache lifetime of a model list, in milliseconds (5 minutes).
pub const CACHE_TTL_MS: u64 = 300_000;

/// Metadata for one model offered by a provider.
#[derive(Debug)]
pub struct ModelInfo {
    /// Model identifier used in API calls (e.g. "glm-5.1").
    pub id: String,
    /// Human-readable display name.
    pub name: String,
    /// Provider that serves this model (e.g. "opencode_go").
    pub provider: String,
    /// Maximum context window in tokens, if known.
    pub context_length: Option<u64>,
    pub description: Option<String>,
}

/// A model's metadata as plain values: id, name, provider, context length, description.
pub type ModelView = (Seq<char>, Seq<char>, Seq<char>, Option<u64>, Option<Seq<char>>);

impl View for ModelInfo {
    type V = ModelView;

    open spec fn view(&self) -> ModelView {
        (
            self.id@,
            self.name@,
            self.provider@,
            self.context_length,
            match self.description {
                Some(d) => Some(d@),
                None => None,
            },
        )
    }
}

/// The views of a sequence of models.
pub open spec fn model_views(s: Seq<ModelInfo>) -> Seq<ModelView> {
    Seq::new(s.len(), |i: int| s[i]@)
}

impl ModelInfo {
    /// Qualified model ID: `provider/model_id` (e.g. "opencode_go/glm-5.1").
    pub fn qualified_id(&self) -> (s: String)
        ensures
            s@ == self.provider@ + "/"@ + self.id@,
    {
        let mut out = str_chars(self.provider.as_str());
        push_str(&mut out, "/");
        push_string(&mut out, &self.id);
        chars_to_string(&out)
    }

    /// A copy of this metadata.
    pub fn duplicate(&self) -> (r: Self)
        ensures
            r@ == self@,
    {
        ModelInfo {
            id: self.id.clone(),
            name: self.name.clone(),
            provider: self.provider.clone(),
            context_length: self.context_length,
            description: match &self.description {
                Some(d) => Some(d.clone()),
                None => None,
            },
        }
    }
}

/// The metadata of one entry of an OpenAI-compatible `/models` listing:
/// the display name is `id (owner)` when the owner is given, else the id.
pub open spec fn listed_model(provider: Seq<char>, id: Seq<char>, owned_by: Option<Seq<char>>) -> ModelView {
    (
        id,
        match owned_by {
            Some(o) => id + " ("@ + o + ")"@,
            None => id,
        },
        provider,
        None,
        None,
    )
}

/// Fetches models from an OpenAI-compatible `/models` endpoint.
#[derive(Debug, Clone)]
pub struct OpenAiCompatDiscovery {
    base_url: String,
    api_key: String,
    provider_name: String,
    no_proxy: bool,
}

/// The parts of a discovery source: base URL, API key, provider name, proxy bypass.
pub type DiscoveryView = (Seq<char>, Seq<char>, Seq<char>, bool);

impl View for OpenAiCompatDiscovery {
    type V = DiscoveryView;

    closed spec fn view(&self) -> DiscoveryView {
        (self.base_url@, self.api_key@, self.provider_name@, self.no_proxy)
    }
}

impl OpenAiCompatDiscovery {
    pub fn new(base_url: String, api_key: String, provider_name: String, no_proxy: bool) -> (d: Self)
        ensures
            d@ == (base_url@, api_key@, provider_name@, no_proxy),
    {
        OpenAiCompatDiscovery { base_url, api_key, provider_name, no_proxy }
    }

    /// The URL of the listing: `<base_url>/models`.
    pub fn models_url(&self) -> (s: String)
        ensures
            s@ == self@.0 + "/models"@,
    {
        let mut out = str_chars(self.base_url.as_str());
        push_str(&mut out, "/models");
        chars_to_string(&out)
    }

    /// The `Authorization` header value: `Bearer <api_key>`.
    pub fn authorization(&self) -> (s: String)
        ensures
            s@ == "Bearer "@ + self@.1,
    {
        let mut out = str_chars("Bearer ");
        push_string(&mut out, &self.api_key);
        chars_to_string(&out)
    }

    /// Connect directly, bypassing any proxy.
    pub fn no_proxy(&self) -> (b: bool)
        ensures
            b == self@.3,
    {
        self.no_proxy
    }

    /// The metadata of one listed model served by this provider.
    pub fn listed_model(&self, id: &String, owned_by: &Option<String>) -> (m: ModelInfo)
        ensures
            m@ == listed_model(
                self@.2,
                id@,
                match *owned_by {
                    Some(o) => Some(o@),
                    None => None,
                },
            ),
    {
        let name = match owned_by {
            Some(o) => {
                let mut out = str_chars(id.as_str());
                push_str(&mut out, " (");
                push_string(&mut out, o);
                push_str(&mut out, ")");
                chars_to_string(&out)
            },
            None => id.clone(),
        };
        ModelInfo {
            id: id.clone(),
            name,
            provider: self.provider_name.clone(),
            context_length: None,
            description: None,
        }
    }
}

// ---------------------------------------------------------------------------
// Ordering of the merged list
// ---------------------------------------------------------------------------

/// `a` sorts strictly before `b`: by provider, then by model id.
pub open spec fn model_lt(a: ModelView, b: ModelView) -> bool {
    lex_lt(a.2, b.2) || (a.2 == b.2 && lex_lt(a.0, b.0))
}

/// Sorted by provider, then id.
pub open spec fn models_sorted(s: Seq<ModelView>) -> bool {
    forall|i: int, j: int| 0 <= i < j < s.len() ==> !model_lt(#[trigger] s[j], #[trigger] s[i])
}

proof fn lemma_model_lt_asymmetric(a: ModelView, b: ModelView)
    requires
        model_lt(a, b),
    ensures
        !model_lt(b, a),
{
    if lex_lt(a.2, b.2) {
        lemma_lex_asymmetric(a.2, b.2);
        if b.2 == a.2 {
            lemma_lex_irreflexive(a.2);
        }
    } else {
        lemma_lex_asymmetric(a.0, b.0);
        lemma_lex_irreflexive(a.2);
    }
}

proof fn lemma_model_lt_transitive(a: ModelView, b: ModelView, c: ModelView)
    requires
        model_lt(a, b),
        model_lt(b, c),
    ensures
        model_lt(a, c),
{
    if lex_lt(a.2, b.2) && lex_lt(b.2, c.2) {
        lemma_lex_transitive(a.2, b.2, c.2);
    } else if lex_lt(a.2, b.2) {
    } else if lex_lt(b.2, c.2) {
    } else {
        lemma_lex_transitive(a.0, b.0, c.0);
    }
}

fn model_less(a: &ModelInfo, b: &ModelInfo) -> (r: bool)
    ensures
        r == model_lt(a@, b@),
{
    if lex_less(a.provider.as_str(), b.provider.as_str()) {
        true
    } else if crate::text::str_eq(a.provider.as_str(), b.provider.as_str()) {
        lex_less(a.id.as_str(), b.id.as_str())
    } else {
        false
    }
}

/// Order models by provider, then by id (equal keys keep their order).
pub fn sort_models(v: Vec<ModelInfo>) -> (r: Vec<ModelInfo>)
    ensures
        models_sorted(model_views(r@)),
        model_views(r@).to_multiset() == model_views(v@).to_multiset(),
{
    broadcast use vstd::seq_lib::group_to_multiset_ensures, vstd::multiset::group_multiset_axioms;

    let mut out: Vec<ModelInfo> = Vec::new();
    let mut rest = v;
    let ghost input = model_views(rest@);
    assert(model_views(out@) =~= Seq::<ModelView>::empty());
    assert(model_views(out@).to_multiset().len() == 0);
    assert(model_views(out@).to_multiset() =~= vstd::multiset::Multiset::<ModelView>::empty());
    assert(model_views(out@).to_multiset().add(model_views(rest@).to_multiset()) =~= input.to_multiset());
    while rest.len() > 0
        invariant
            models_sorted(model_views(out@)),
            model_views(out@).to_multiset().add(model_views(rest@).to_multiset())
                == input.to_multiset(),
        decreases rest.len(),
    {
        let ghost before_rest = model_views(rest@);
        let x = rest.pop().unwrap();
        proof {
            assert(before_rest =~= model_views(rest@).push(x@));
            vstd::seq_lib::to_multiset_build(model_views(rest@), x@);
        }
        let mut p: usize = 0;
        while p < out.len() && !model_less(&x, &out[p])
            invariant
                p <= out.len(),
                forall|k: int| 0 <= k < p ==> !model_lt(x@, #[trigger] model_views(out@)[k]),
            decreases out.len() - p,
        {
            p = p + 1;
        }
        let ghost old_out = model_views(out@);
        proof {
            assert forall|k: int| 0 <= k < old_out.len() && p < old_out.len() && p <= k implies !model_lt(
                #[trigger] old_out[k],
                x@,
            ) by {
                if model_lt(old_out[k], x@) {
                    assert(model_lt(x@, old_out[p as int]));
                    lemma_model_lt_transitive(old_out[k], x@, old_out[p as int]);
                    if k == p {
                        lemma_model_lt_asymmetric(old_out[k], x@);
                    }
                }
            }
        }
        out.insert(p, x);
        proof {
            let nv = model_views(out@);
            assert(nv =~= old_out.insert(p as int, x@));
            vstd::seq_lib::to_multiset_insert(old_out, p as int, x@);
            assert forall|i: int, j: int| 0 <= i < j < nv.len() implies !model_lt(#[trigger] nv[j], #[trigger] nv[i]) by {
                if j < p {
                } else if j == p {
                    assert(nv[i] == old_out[i]);
                } else if i < p {
                    assert(nv[j] == old_out[j - 1]);
                    assert(nv[i] == old_out[i]);
                } else if i == p {
                    assert(nv[j] == old_out[j - 1]);
                } else {
                    assert(nv[j] == old_out[j - 1]);
                    assert(nv[i] == old_out[i - 1]);
                }
            }
            assert(nv.to_multiset().add(model_views(rest@).to_multiset()) =~= input.to_multiset());
        }
    }
    proof {
        assert(model_views(rest@) =~= Seq::<ModelView>::empty());
        assert(model_views(rest@).to_multiset().len() == 0);
        assert(model_views(rest@).to_multiset() =~= vstd::multiset::Multiset::<ModelView>::empty());
        assert(model_views(out@).to_multiset() =~= input.to_multiset());
    }
    out
}

// ---------------------------------------------------------------------------
// Model catalog with caching
// ---------------------------------------------------------------------------

/// A fetched model list and when it was fetched (milliseconds on the caller's clock).
#[derive(Debug)]
pub struct CachedModels {
    pub models: Vec<ModelInfo>,
    pub fetched_at_ms: u64,
}

/// A cached list is fresh while younger than `CACHE_TTL_MS` (a fetch time in
/// the future counts as age zero).
pub open spec fn is_fresh(c: CachedModels, now_ms: u64) -> bool {
    (if now_ms >= c.fetched_at_ms {
        now_ms - c.fetched_at_ms
    } else {
        0
    }) < CACHE_TTL_MS
}

/// Aggregates the models of several discovery sources, caching each list.
pub struct ModelCatalog {
    discoverers: KeyedMap<OpenAiCompatDiscovery>,
    cache: KeyedMap<CachedModels>,
}

/// For each source name in order: its cached models when fresh, else the
/// name goes to the list of sources to fetch.
pub open spec fn refresh_split(names: Seq<Seq<char>>, cache: KeyedMap<CachedModels>, now_ms: u64) -> (Seq<ModelView>, Seq<Seq<char>>)
    decreases names.len(),
{
    if names.len() == 0 {
        (Seq::empty(), Seq::empty())
    } else {
        let prev = refresh_split(names.drop_last(), cache, now_ms);
        let k = names.last();
        if cache.get_spec(k) is Some && is_fresh(cache.get_spec(k).unwrap(), now_ms) {
            (prev.0 + model_views(cache.get_spec(k).unwrap().models@), prev.1)
        } else {
            (prev.0, prev.1.push(k))
        }
    }
}

/// The models of `s` served by `provider`, in order.
pub open spec fn of_provider(s: Seq<ModelView>, provider: Seq<char>) -> Seq<ModelView>
    decreases s.len(),
{
    if s.len() == 0 {
        Seq::empty()
    } else if s.last().2 == provider {
        of_provider(s.drop_last(), provider).push(s.last())
    } else {
        of_provider(s.drop_last(), provider)
    }
}

fn append_copies(out: &mut Vec<ModelInfo>, src: &Vec<ModelInfo>)
    ensures
        model_views(final(out)@) == model_views(old(out)@) + model_views(src@),
{
    let ghost start = model_views(out@);
    let mut i: usize = 0;
    while i < src.len()
        invariant
            i <= src.len(),
            model_views(out@) == start + model_views(src@).take(i as int),
        decreases src.len() - i,
    {
        let ghost before = model_views(out@);
        let m = src[i].duplicate();
        out.push(m);
        assert(model_views(out@) =~= before.push(m@));
        assert(model_views(src@).take(i + 1) =~= model_views(src@).take(i as int).push(src@[i as int]@));
        i = i + 1;
    }
    assert(model_views(src@).take(i as int) =~= model_views(src@));
}

impl ModelCatalog {
    /// Names of the registered discovery sources, in registration order.
    pub closed spec fn source_names(&self) -> Seq<Seq<char>> {
        self.discoverers.keys()
    }

    /// The discovery source registered for `k`.
    pub closed spec fn source(&self, k: Seq<char>) -> Option<DiscoveryView> {
        match self.discoverers.get_spec(k) {
            Some(d) => Some(d@),
            None => None,
        }
    }

    /// The cache of model lists.
    pub closed spec fn cache(&self) -> KeyedMap<CachedModels> {
        self.cache
    }

    pub closed spec fn wf(&self) -> bool {
        self.discoverers.wf() && self.cache.wf()
    }

    /// An empty catalog.
    pub fn new() -> (c: Self)
        ensures
            c.wf(),
            c.source_names() == Seq::<Seq<char>>::empty(),
            forall|k: Seq<char>| #[trigger] c.source(k) is None,
            forall|k: Seq<char>| #[trigger] c.cache().get_spec(k) is None,
    {
        ModelCatalog { discoverers: KeyedMap::new(), cache: KeyedMap::new() }
    }

    /// Register a model discovery source for a provider (replacing an earlier one).
    pub fn register(&mut self, provider_name: &str, discoverer: OpenAiCompatDiscovery)
        requires
            old(self).wf(),
        ensures
            final(self).wf(),
            forall|k: Seq<char>| #[trigger] final(self).source(k) == if k == provider_name@ {
                Some(discoverer@)
            } else {
                old(self).source(k)
            },
            final(self).source_names() == if old(self).source_names().contains(provider_name@) {
                old(self).source_names()
            } else {
                old(self).source_names().push(provider_name@)
            },
            final(self).cache() == old(self).cache(),
    {
        self.discoverers.insert(provider_name, discoverer);
    }

    /// The discovery source registered for `provider_name`.
    pub fn source_for(&self, provider_name: &str) -> (r: Option<&OpenAiCompatDiscovery>)
        ensures
            match r {
                Some(d) => self.source(provider_name@) == Some(d@),
                None => self.source(provider_name@) is None,
            },
    {
        self.discoverers.get(provider_name)
    }

    /// The cached models that are still fresh at `now_ms`, and the sources
    /// (in registration order) whose lists must be fetched.
    pub fn plan_refresh(&self, now_ms: u64) -> (r: (Vec<ModelInfo>, Vec<String>))
        requires
            self.wf(),
        ensures
            (model_views(r.0@), crate::text::views(r.1@)) == refresh_split(self.source_names(), self.cache(), now_ms),
    {
        let mut results: Vec<ModelInfo> = Vec::new();
        let mut to_fetch: Vec<String> = Vec::new();
        let ghost names = self.discoverers.keys();
        let mut i: usize = 0;
        assert(names.take(0) =~= Seq::<Seq<char>>::empty());
        assert(model_views(results@) =~= Seq::<ModelView>::empty());
        assert(crate::text::views(to_fetch@) =~= Seq::<Seq<char>>::empty());
        while i < self.discoverers.len()
            invariant
                i <= names.len(),
                names == self.discoverers.keys(),
                (model_views(results@), crate::text::views(to_fetch@)) == refresh_split(names.take(i as int), self.cache, now_ms),
            decreases names.len() - i,
        {
            let (name, _) = self.discoverers.entry(i);
            assert(names.take(i + 1).drop_last() =~= names.take(i as int));
            let fresh = match self.cache.get(name.as_str()) {
                Some(c) => {
                    let age = if now_ms >= c.fetched_at_ms {
                        now_ms - c.fetched_at_ms
                    } else {
                        0
                    };
                    if age < CACHE_TTL_MS {
                        append_copies(&mut results, &c.models);
                        true
                    } else {
                        false
                    }
                },
                None => false,
            };
            if !fresh {
                let ghost before = crate::text::views(to_fetch@);
                let key = name.clone();
                to_fetch.push(key);
                assert(crate::text::views(to_fetch@) =~= before.push(key@));
            }
            i = i + 1;
        }
        assert(names.take(i as int) =~= names);
        (results, to_fetch)
    }

    /// Record the outcome of fetching `name`'s list at `now_ms`: a fetched
    /// list joins the results and replaces the cached one; on failure the
    /// stale cached list, if any, is served instead.
    pub fn record_fetch(
        &mut self,
        name: &str,
        outcome: Result<Vec<ModelInfo>, String>,
        now_ms: u64,
        results: &mut Vec<ModelInfo>,
    )
        requires
            old(self).wf(),
        ensures
            final(self).wf(),
            final(self).source_names() == old(self).source_names(),
            forall|k: Seq<char>| #[trigger] final(self).source(k) == old(self).source(k),
            match outcome {
                Ok(ms) => {
                    &&& model_views(final(results)@) == model_views(old(results)@) + model_views(ms@)
                    &&& forall|k: Seq<char>| #[trigger] final(self).cache().get_spec(k) == if k == name@ {
                        Some(CachedModels { models: ms, fetched_at_ms: now_ms })
                    } else {
                        old(self).cache().get_spec(k)
                    }
                },
                Err(_) => {
                    &&& model_views(final(results)@) == model_views(old(results)@) + match old(self).cache().get_spec(name@) {
                        Some(c) => model_views(c.models@),
                        None => Seq::empty(),
                    }
                    &&& final(self).cache() == old(self).cache()
                },
            },
    {
        match outcome {
            Ok(models) => {
                append_copies(results, &models);
                self.cache.insert(name, CachedModels { models, fetched_at_ms: now_ms });
            },
            Err(_) => {
                match self.cache.get(name) {
                    Some(c) => append_copies(results, &c.models),
                    None => {
                        assert(model_views(results@) =~= model_views(old(results)@) + Seq::<ModelView>::empty());
                    },
                }
            },
        }
    }

    /// Drop every cached list (the next listing fetches all sources).
    pub fn invalidate_cache(&mut self)
        requires
            old(self).wf(),
        ensures
            final(self).wf(),
            final(self).source_names() == old(self).source_names(),
            forall|k: Seq<char>| #[trigger] final(self).source(k) == old(self).source(k),
            forall|k: Seq<char>| #[trigger] final(self).cache().get_spec(k) is None,
    {
        self.cache = KeyedMap::new();
    }
}

/// The models of `all` served by `provider`, in order.
pub fn provider_models(all: &Vec<ModelInfo>, provider: &str) -> (r: Vec<ModelInfo>)
    ensures
        model_views(r@) == of_provider(model_views(all@), provider@),
{
    let mut r: Vec<ModelInfo> = Vec::new();
    let mut i: usize = 0;
    assert(model_views(all@).take(0) =~= Seq::<ModelView>::empty());
    assert(model_views(r@) =~= Seq::<ModelView>::empty());
    while i < all.len()
        invariant
            i <= all.len(),
            model_views(r@) == of_provider(model_views(all@).take(i as int), provider@),
        decreases all.len() - i,
    {
        assert(model_views(all@).take(i + 1).drop_last() =~= model_views(all@).take(i as int));
        if crate::text::str_eq(all[i].provider.as_str(), provider) {
            let ghost before = model_views(r@);
            let m = all[i].duplicate();
            r.push(m);
            assert(model_views(r@) =~= before.push(m@));
        }
        i = i + 1;
    }
    assert(model_views(all@).take(i as int) =~= model_views(all@));
    r
}

// ---------------------------------------------------------------------------
// Catalog from configuration
// ---------------------------------------------------------------------------

/// A discovery source for a provider section holding an API key.
pub open spec fn keyed_source(e: Option<ProviderEntry>, name: Seq<char>, default_url: Seq<char>) -> Seq<(Seq<char>, DiscoveryView)> {
    match e {
        Some(x) => match x.api_key {
            Some(k) => seq![
                (
                    name,
                    (
                        crate::registry::text_or(x.base_url, default_url),
                        k@,
                        name,
                        match x.no_proxy {
                            Some(b) => b,
                            None => false,
                        },
                    ),
                ),
            ],
            None => Seq::empty(),
        },
        None => Seq::empty(),
    }
}

/// The discovery source of a custom provider: its own base URL, its key
/// (empty when it has none), its name.
pub open spec fn custom_source(c: CustomProvider) -> (Seq<char>, DiscoveryView) {
    (
        c.name@,
        (
            c.base_url@,
            crate::registry::text_or(c.api_key, Seq::empty()),
            c.name@,
            match c.no_proxy {
                Some(b) => b,
                None => false,
            },
        ),
    )
}

/// The discovery sources of the custom providers, in order.
pub open spec fn custom_sources(cs: Seq<CustomProvider>) -> Seq<(Seq<char>, DiscoveryView)> {
    Seq::new(cs.len(), |i: int| custom_source(cs[i]))
}

/// The discovery sources a configuration provides, in registration order:
/// the built-in providers holding an API key, then every custom provider.
pub open spec fn catalog_plan(c: Config) -> Seq<(Seq<char>, DiscoveryView)> {
    builtin_plan(c) + custom_sources(c.custom_providers@)
}

/// The discovery sources of the built-in providers holding an API key.
pub open spec fn builtin_plan(c: Config) -> Seq<(Seq<char>, DiscoveryView)> {
    keyed_source(c.providers.opencode_go, "opencode_go"@, "https://opencode.ai/zen/go/v1"@)
        + keyed_source(
        c.providers.glm_coding_plan,
        "glm_coding_plan"@,
        "https://open.bigmodel.cn/api/coding/paas/v4"@,
    ) + keyed_source(c.providers.openai, "openai"@, "https://api.openai.com/v1"@) + keyed_source(
        c.providers.deepseek,
        "deepseek"@,
        "https://api.deepseek.com/v1"@,
    ) + keyed_source(c.providers.groq, "groq"@, "https://api.groq.com/openai/v1"@) + keyed_source(
        c.providers.openrouter,
        "openrouter"@,
        "https://openrouter.ai/api/v1"@,
    )
}

fn register_keyed(
    catalog: &mut ModelCatalog,
    e: &Option<ProviderEntry>,
    name: &str,
    default_url: &str,
    Ghost(done): Ghost<Seq<(Seq<char>, DiscoveryView)>>,
)
    requires
        old(catalog).wf(),
        forall|k: Seq<char>| #[trigger] old(catalog).source(k) == crate::registry::last_value(done, k),
        forall|k: Seq<char>| #[trigger] old(catalog).cache().get_spec(k) is None,
    ensures
        final(catalog).wf(),
        forall|k: Seq<char>| #[trigger] final(catalog).source(k) == crate::registry::last_value(done + keyed_source(*e, name@, default_url@), k),
        forall|k: Seq<char>| #[trigger] final(catalog).cache().get_spec(k) is None,
{
    let ghost added = keyed_source(*e, name@, default_url@);
    if let Some(x) = e {
        if let Some(k) = &x.api_key {
            let base = match &x.base_url {
                Some(u) => u.clone(),
                None => String::from_str(default_url),
            };
            let no_proxy = match x.no_proxy {
                Some(b) => b,
                None => false,
            };
            let d = OpenAiCompatDiscovery::new(base, k.clone(), String::from_str(name), no_proxy);
            catalog.register(name, d);
            assert forall|q: Seq<char>| #[trigger] catalog.source(q) == crate::registry::last_value(done + added, q) by {
                assert((done + added).drop_last() =~= done);
            }
            return;
        }
    }
    assert(done + added =~= done);
}

/// Register a discovery source for each custom provider, in order.
fn register_customs(
    catalog: &mut ModelCatalog,
    customs: &Vec<CustomProvider>,
    Ghost(done): Ghost<Seq<(Seq<char>, DiscoveryView)>>,
)
    requires
        old(catalog).wf(),
        forall|k: Seq<char>| #[trigger] old(catalog).source(k) == crate::registry::last_value(done, k),
        forall|k: Seq<char>| #[trigger] old(catalog).cache().get_spec(k) is None,
    ensures
        final(catalog).wf(),
        forall|k: Seq<char>| #[trigger] final(catalog).source(k) == crate::registry::last_value(done + custom_sources(customs@), k),
        forall|k: Seq<char>| #[trigger] final(catalog).cache().get_spec(k) is None,
{
    let ghost all = custom_sources(customs@);
    let mut i: usize = 0;
    assert(done + all.take(0) =~= done);
    while i < customs.len()
        invariant
            i <= customs@.len(),
            all == custom_sources(customs@),
            catalog.wf(),
            forall|k: Seq<char>| #[trigger] catalog.source(k) == crate::registry::last_value(done + all.take(i as int), k),
            forall|k: Seq<char>| #[trigger] catalog.cache().get_spec(k) is None,
        decreases customs.len() - i,
    {
        let c = &customs[i];
        let key = match &c.api_key {
            Some(k) => k.clone(),
            None => String::new(),
        };
        let no_proxy = match c.no_proxy {
            Some(b) => b,
            None => false,
        };
        let d = OpenAiCompatDiscovery::new(c.base_url.clone(), key, c.name.clone(), no_proxy);
        catalog.register(c.name.as_str(), d);
        proof {
            assert(d@ == custom_source(customs@[i as int]).1);
            assert((done + all.take(i + 1)).drop_last() =~= done + all.take(i as int));
            assert((done + all.take(i + 1)).last() == custom_source(customs@[i as int]));
            assert forall|q: Seq<char>| #[trigger] catalog.source(q) == crate::registry::last_value(done + all.take(i + 1), q) by {}
        }
        i = i + 1;
    }
    assert(all.take(i as int) =~= all);
}

/// Build the catalog from a configuration: a discovery source for OpenCode
/// Go, the GLM Coding Plan, OpenAI, DeepSeek, Groq and OpenRouter, each when
/// its section holds an API key, and one for every custom provider (its
/// `/models` endpoint).
pub fn build_catalog(config: &Config) -> (c: ModelCatalog)
    ensures
        c.wf(),
        forall|k: Seq<char>| #[trigger] c.source(k) == crate::registry::last_value(catalog_plan(*config), k),
        forall|k: Seq<char>| #[trigger] c.cache().get_spec(k) is None,
{
    let mut catalog = ModelCatalog::new();
    let ghost p0 = Seq::<(Seq<char>, DiscoveryView)>::empty();
    let p = &config.providers;
    register_keyed(&mut catalog, &p.opencode_go, "opencode_go", "https://opencode.ai/zen/go/v1", Ghost(p0));
    let ghost p1 = p0 + keyed_source(p.opencode_go, "opencode_go"@, "https://opencode.ai/zen/go/v1"@);
    register_keyed(
        &mut catalog,
        &p.glm_coding_plan,
        "glm_coding_plan",
        "https://open.bigmodel.cn/api/coding/paas/v4",
        Ghost(p1),
    );
    let ghost p2 = p1 + keyed_source(
        p.glm_coding_plan,
        "glm_coding_plan"@,
        "https://open.bigmodel.cn/api/coding/paas/v4"@,
    );
    register_keyed(&mut catalog, &p.openai, "openai", "https://api.openai.com/v1", Ghost(p2));
    let ghost p3 = p2 + keyed_source(p.openai, "openai"@, "https://api.openai.com/v1"@);
    register_keyed(&mut catalog, &p.deepseek, "deepseek", "https://api.deepseek.com/v1", Ghost(p3));
    let ghost p4 = p3 + keyed_source(p.deepseek, "deepseek"@, "https://api.deepseek.com/v1"@);
    register_keyed(&mut catalog, &p.groq, "groq", "https://api.groq.com/openai/v1", Ghost(p4));
    let ghost p5 = p4 + keyed_source(p.groq, "groq"@, "https://api.groq.com/openai/v1"@);
    register_keyed(&mut catalog, &p.openrouter, "openrouter", "https://openrouter.ai/api/v1", Ghost(p5));
    let ghost p6 = p5 + keyed_source(p.openrouter, "openrouter"@, "https://openrouter.ai/api/v1"@);
    assert(p6 =~= builtin_plan(*config));
    register_customs(&mut catalog, &config.custom_providers, Ghost(p6));
    catalog
}

/// With an empty cache (as after `invalidate_cache`), every source is
/// fetched again, in order, and nothing is served from the cache.
pub proof fn law_empty_cache_fetches_all(names: Seq<Seq<char>>, cache: KeyedMap<CachedModels>, now_ms: u64)
    requires
        forall|k: Seq<char>| #[trigger] cache.get_spec(k) is None,
    ensures
        refresh_split(names, cache, now_ms) == (Seq::<ModelView>::empty(), names),
    decreases names.len(),
{
    if names.len() > 0 {
        law_empty_cache_fetches_all(names.drop_last(), cache, now_ms);
        assert(names.drop_last().push(names.last()) =~= names);
    }
}

} // verus!
