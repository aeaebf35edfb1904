//! The model router: which OpenAI-compatible providers are registered, and
//! which one a `provider:model` string selects.
//!
//! The router keeps each provider's settings; the caller builds the client
//! from the settings it hands out.
use vstd::prelude::*;
use crate::llm::{provider_name_of, provider_name_spec, ModelInfo, OpenAiConfig, ProviderConfig, ProviderEntry, ProviderInfo};
use crate::order::{key_is, lemma_same_keys_contains, sorted_by, stable_sort_by};
use crate::text::{chars_eq, chars_of, join, push_chars, push_str, string_of, to_uppercase_string, uppercase};

verus! {

/// A registered provider: its name and settings.
pub type Registered = (String, OpenAiConfig);

/// The registered names, in storage order.
pub open spec fn names(s: Seq<Registered>) -> Seq<Seq<char>> {
    s.map_values(|p: Registered| p.0@)
}

/// No two registered providers share a name.
pub open spec fn names_unique(s: Seq<Registered>) -> bool {
    forall|i: int, j: int| 0 <= i < j < s.len() ==> s[i].0@ != s[j].0@
}

/// The settings registered under `name`, if any.
pub open spec fn lookup(s: Seq<Registered>, name: Seq<char>) -> Option<OpenAiConfig>
    decreases s.len(),
{
    if s.len() == 0 {
        None
    } else if s.last().0@ == name {
        Some(s.last().1)
    } else {
        lookup(s.drop_last(), name)
    }
}

/// A provider registered under another name than `name`.
pub open spec fn not_named(name: Seq<char>) -> spec_fn(Registered) -> bool {
    |p: Registered| p.0@ != name
}

/// The view of a string.
pub open spec fn text_of() -> spec_fn(String) -> Seq<char> {
    |s: String| s@
}

proof fn lemma_lookup_filter(s: Seq<Registered>, name: Seq<char>, other: Seq<char>)
    requires
        other != name,
    ensures
        lookup(s.filter(not_named(name)), other) == lookup(s, other),
    decreases s.len(),
{
    if s.len() > 0 {
        let t = s.drop_last();
        lemma_lookup_filter(t, name, other);
        assert(t.push(s.last()) =~= s);
        t.lemma_filter_push(s.last(), not_named(name));
        if not_named(name)(s.last()) {
            assert(t.filter(not_named(name)).push(s.last()).drop_last() =~= t.filter(not_named(name)));
        }
    }
}

proof fn lemma_names_filter_unique(s: Seq<Registered>, p: spec_fn(Registered) -> bool)
    requires
        names_unique(s),
    ensures
        names_unique(s.filter(p)),
    decreases s.len(),
{
    if s.len() > 0 {
        let t = s.drop_last();
        lemma_names_filter_unique(t, p);
        assert(t.push(s.last()) =~= s);
        t.lemma_filter_push(s.last(), p);
        if p(s.last()) {
            let f = t.filter(p);
            assert forall|k: int| 0 <= k < f.len() implies #[trigger] f[k].0@ != s.last().0@ by {
                assert(f.contains(f[k]));
                t.lemma_filter_contains_rev(p, f[k]);
                let m = choose|m: int| 0 <= m < t.len() && t[m] == f[k];
                assert(s[m] == t[m]);
            }
        }
    }
}

/// Registering `config` under `name` makes it the provider of `name` and
/// leaves every other name's provider as it was.
pub proof fn lemma_register_lookup(s: Seq<Registered>, p: Registered, other: Seq<char>)
    ensures
        lookup(s.filter(not_named(p.0@)).push(p), p.0@) == Some(p.1),
        other != p.0@ ==> lookup(s.filter(not_named(p.0@)).push(p), other) == lookup(s, other),
{
    let t = s.filter(not_named(p.0@)).push(p);
    assert(t.drop_last() =~= s.filter(not_named(p.0@)));
    if other != p.0@ {
        lemma_lookup_filter(s, p.0@, other);
    }
}

/// The error for a model whose provider is not registered.
pub open spec fn unknown_provider_message(name: Seq<char>, available: Seq<Seq<char>>) -> Seq<char> {
    "Unknown provider '"@ + name + "'. Available: "@ + join(available, ", "@)
        + ". Set the corresponding API key env var to enable it."@
}

/// A stored entry is used: it has an API key, or it is a local provider.
pub open spec fn entry_usable(e: ProviderEntry) -> bool {
    e.api_key@.len() > 0 || e.id@ == "llamacpp"@ || e.id@ == "local"@
}

/// The settings a used entry registers: a missing key becomes `unused`.
pub open spec fn entry_settings(e: ProviderEntry, c: OpenAiConfig) -> bool {
    &&& c.provider_name@ == e.id@
    &&& c.api_key@ == if e.api_key@.len() == 0 {
        "unused"@
    } else {
        e.api_key@
    }
    &&& c.base_url == e.base_url && c.model == e.default_model && c.context_length == e.context_length
}

/// The last used entry with id `name`.
pub open spec fn last_usable(entries: Seq<ProviderEntry>, name: Seq<char>) -> Option<ProviderEntry>
    decreases entries.len(),
{
    if entries.len() == 0 {
        None
    } else if entry_usable(entries.last()) && entries.last().id@ == name {
        Some(entries.last())
    } else {
        last_usable(entries.drop_last(), name)
    }
}

/// The definition recorded for a stored entry: its fields, without an
/// environment variable.
pub open spec fn config_of_entry(e: ProviderEntry, c: ProviderConfig) -> bool {
    &&& c.id == e.id && c.name == e.name && c.env_key@.len() == 0 && c.base_url == e.base_url
    &&& c.default_model == e.default_model && c.context_length == e.context_length && c.models@ == e.models@
}

/// A definition is used: it needs no key, or its key variable is set and
/// not empty.
pub open spec fn config_usable(c: ProviderConfig, key: Option<String>) -> bool {
    c.env_key@.len() == 0 || (key matches Some(k) && k@.len() > 0)
}

/// The settings a used definition registers, with its key and base URL
/// override.
pub open spec fn config_settings(
    c: ProviderConfig,
    key: Option<String>,
    base_url: Option<String>,
    s: OpenAiConfig,
) -> bool {
    &&& s.provider_name == c.id
    &&& s.api_key@ == if c.env_key@.len() == 0 {
        "unused"@
    } else {
        key->0@
    }
    &&& s.base_url == match base_url {
        Some(u) => u,
        None => c.base_url,
    }
    &&& s.model == c.default_model && s.context_length == c.context_length
}

/// The position of the last used definition with id `name`.
pub open spec fn last_configured(
    configs: Seq<ProviderConfig>,
    keys: Seq<Option<String>>,
    name: Seq<char>,
) -> Option<int>
    decreases configs.len(),
{
    if configs.len() == 0 {
        None
    } else if config_usable(configs.last(), keys[configs.len() - 1]) && configs.last().id@ == name {
        Some(configs.len() - 1)
    } else {
        last_configured(configs.drop_last(), keys, name)
    }
}

/// The first definition with id `id`.
pub open spec fn first_config(configs: Seq<ProviderConfig>, id: Seq<char>) -> Option<ProviderConfig>
    decreases configs.len(),
{
    if configs.len() == 0 {
        None
    } else if configs[0].id@ == id {
        Some(configs[0])
    } else {
        first_config(configs.drop_first(), id)
    }
}

/// The listing of provider `name`: the display name and models of its first
/// definition (each model with its id, name, context length and vision
/// flag), or its name and no models without one.
pub open spec fn info_of(configs: Seq<ProviderConfig>, name: String, info: ProviderInfo) -> bool {
    &&& info.id == name
    &&& match first_config(configs, name@) {
        Some(c) => info.name == c.name && info.models@ == c.models@,
        None => info.name == name && info.models@.len() == 0,
    }
}

/// Some provider is registered under `name`.
pub open spec fn is_registered(s: Seq<Registered>, name: String) -> bool {
    exists|j: int| 0 <= j < s.len() && s[j].0 == name
}

/// Some listing has id `name`.
pub open spec fn is_listed(r: Seq<ProviderInfo>, name: String) -> bool {
    exists|i: int| 0 <= i < r.len() && r[i].id == name
}

/// The id of a listing.
pub open spec fn info_id() -> spec_fn(ProviderInfo) -> Seq<char> {
    |i: ProviderInfo| i.id@
}

fn clone_models(v: &Vec<ModelInfo>) -> (r: Vec<ModelInfo>)
    ensures
        r@ == v@,
{
    let mut out: Vec<ModelInfo> = Vec::new();
    let mut i: usize = 0;
    while i < v.len()
        invariant
            i <= v@.len(),
            out@ == v@.take(i as int),
        decreases v@.len() - i,
    {
        out.push(v[i].clone());
        assert(v@.take(i + 1) =~= v@.take(i as int).push(v@[i as int]));
        i += 1;
    }
    assert(v@.take(i as int) =~= v@);
    out
}

/// The environment variable overriding a provider's base URL:
/// `{ID}_BASE_URL`, the id upper-cased.
pub fn base_url_env_name(id: &str) -> (r: String)
    ensures
        r@ == uppercase(id@) + "_BASE_URL"@,
{
    let up = to_uppercase_string(id);
    let mut out = chars_of(up.as_str());
    push_str(&mut out, "_BASE_URL");
    string_of(&out)
}

/// The model router.
pub struct LlmRouter {
    providers: Vec<Registered>,
    provider_configs: Vec<ProviderConfig>,
}

impl LlmRouter {
    /// The registered providers, in the order they were registered.
    pub closed spec fn providers(&self) -> Seq<Registered> {
        self.providers@
    }

    /// The provider definitions the router was built from.
    pub closed spec fn configs(&self) -> Seq<ProviderConfig> {
        self.provider_configs@
    }

    /// Provider names are unique.
    pub open spec fn wf(&self) -> bool {
        names_unique(self.providers())
    }

    /// A router without providers.
    pub fn new() -> (r: Self)
        ensures
            r.wf(),
            r.providers().len() == 0,
            r.configs().len() == 0,
    {
        LlmRouter { providers: Vec::new(), provider_configs: Vec::new() }
    }

    /// Registers an OpenAI-compatible provider under `name`, replacing one
    /// registered under that name.
    pub fn register_openai_compatible(&mut self, name: &str, config: OpenAiConfig)
        requires
            old(self).wf(),
        ensures
            final(self).wf(),
            final(self).configs() == old(self).configs(),
            final(self).providers().len() >= 1,
            final(self).providers() == old(self).providers().filter(not_named(name@)).push(
                final(self).providers().last(),
            ),
            final(self).providers().last().0@ == name@,
            final(self).providers().last().1 == config,
    {
        let ghost s = self.providers@;
        let mut kept: Vec<Registered> = Vec::new();
        let mut i: usize = 0;
        while i < self.providers.len()
            invariant
                s == self.providers@,
                i <= s.len(),
                kept@ == s.take(i as int).filter(not_named(name@)),
            decreases s.len() - i,
        {
            assert(s.take(i + 1) =~= s.take(i as int).push(s[i as int]));
            proof {
                s.take(i as int).lemma_filter_push(s[i as int], not_named(name@));
            }
            if !chars_eq(&chars_of(self.providers[i].0.as_str()), &chars_of(name)) {
                kept.push((self.providers[i].0.clone(), self.providers[i].1.clone()));
            }
            i += 1;
        }
        assert(s.take(s.len() as int) =~= s);
        proof {
            lemma_names_filter_unique(s, not_named(name@));
        }
        kept.push((string_of(&chars_of(name)), config));
        proof {
            assert forall|a: int, b: int| 0 <= a < b < kept@.len() implies kept@[a].0@ != kept@[b].0@ by {
                if b == kept@.len() - 1 {
                    s.lemma_filter_pred(not_named(name@), a);
                }
            }
        }
        self.providers = kept;
    }

    /// The settings registered under `name`.
    fn find(&self, name: &str) -> (r: Option<OpenAiConfig>)
        ensures
            r == lookup(self.providers(), name@),
    {
        let ghost s = self.providers@;
        let mut i: usize = self.providers.len();
        assert(s.take(i as int) =~= s);
        while i > 0
            invariant
                s == self.providers@,
                i <= s.len(),
                lookup(s, name@) == lookup(s.take(i as int), name@),
            decreases i,
        {
            let ghost t = s.take(i as int);
            assert(t.drop_last() =~= s.take(i - 1));
            if chars_eq(&chars_of(self.providers[i - 1].0.as_str()), &chars_of(name)) {
                return Some(self.providers[i - 1].1.clone());
            }
            i -= 1;
        }
        None
    }

    /// The registered names, in ascending order.
    pub fn available_providers(&self) -> (r: Vec<String>)
        ensures
            r@.len() == self.providers().len(),
            sorted_by(r@, text_of(), false),
            forall|k: Seq<char>| #[trigger] r@.filter(key_is(text_of(), k)) == self.providers().map_values(
                |p: Registered| p.0,
            ).filter(key_is(text_of(), k)),
    {
        let ghost firsts = self.providers@.map_values(|p: Registered| p.0);
        let mut out: Vec<String> = Vec::new();
        let mut keys: Vec<Vec<char>> = Vec::new();
        let mut i: usize = 0;
        while i < self.providers.len()
            invariant
                i <= self.providers@.len(),
                firsts == self.providers@.map_values(|p: Registered| p.0),
                out@ == firsts.take(i as int),
                keys@.len() == i,
                forall|m: int| 0 <= m < i ==> #[trigger] keys@[m]@ == text_of()(out@[m]),
            decreases self.providers@.len() - i,
        {
            out.push(self.providers[i].0.clone());
            keys.push(chars_of(self.providers[i].0.as_str()));
            assert(firsts.take(i + 1) =~= firsts.take(i as int).push(firsts[i as int]));
            i += 1;
        }
        assert(firsts.take(i as int) =~= firsts);
        stable_sort_by(out, keys, false, Ghost(text_of()))
    }

    /// The settings of the provider a model string selects: the part before
    /// the first colon, `openai` without one. An unknown provider is an error
    /// that lists the registered names in ascending order.
    pub fn get_provider(&self, model: &str) -> (r: Result<OpenAiConfig, String>)
        ensures
            match lookup(self.providers(), provider_name_spec(model@)) {
                Some(c) => r == Ok::<OpenAiConfig, String>(c),
                None => r is Err,
            },
            r matches Err(e) ==> exists|avail: Seq<String>| {
                &&& avail.len() == self.providers().len()
                &&& sorted_by(avail, text_of(), false)
                &&& forall|k: Seq<char>| #[trigger] avail.filter(key_is(text_of(), k)) == self.providers().map_values(
                    |p: Registered| p.0,
                ).filter(key_is(text_of(), k))
                &&& e@ == unknown_provider_message(provider_name_spec(model@), avail.map_values(|s: String| s@))
            },
    {
        let name = provider_name_of(model);
        match self.find(name) {
            Some(c) => Ok(c),
            None => {
                let avail = self.available_providers();
                let mut parts: Vec<char> = Vec::new();
                let ghost views = avail@.map_values(|s: String| s@);
                let mut i: usize = 0;
                while i < avail.len()
                    invariant
                        i <= avail@.len(),
                        views == avail@.map_values(|s: String| s@),
                        parts@ == join(views.take(i as int), ", "@),
                    decreases avail@.len() - i,
                {
                    assert(views.take(i + 1).drop_last() =~= views.take(i as int));
                    if i > 0 {
                        push_str(&mut parts, ", ");
                    } else {
                        assert(views.take(0) =~= Seq::<Seq<char>>::empty());
                    }
                    push_str(&mut parts, avail[i].as_str());
                    assert(parts@ =~= join(views.take(i + 1), ", "@));
                    i += 1;
                }
                assert(views.take(avail@.len() as int) =~= views);
                let mut m = chars_of("Unknown provider '");
                push_str(&mut m, name);
                push_str(&mut m, "'. Available: ");
                push_chars(&mut m, &parts);
                push_str(&mut m, ". Set the corresponding API key env var to enable it.");
                Err(string_of(&m))
            },
        }
    }

    /// A router over stored provider entries, in order: each entry is kept
    /// as a definition, and each used entry registers its provider (a later
    /// entry with the same id replacing an earlier one).
    pub fn rebuild_from_entries(entries: &Vec<ProviderEntry>) -> (r: Self)
        ensures
            r.wf(),
            r.configs().len() == entries@.len(),
            forall|i: int| 0 <= i < entries@.len() ==> config_of_entry(entries@[i], #[trigger] r.configs()[i]),
            forall|name: Seq<char>|
                match (#[trigger] lookup(r.providers(), name), last_usable(entries@, name)) {
                    (Some(c), Some(e)) => entry_settings(e, c),
                    (None, None) => true,
                    _ => false,
                },
    {
        let mut router = LlmRouter::new();
        let mut i: usize = 0;
        while i < entries.len()
            invariant
                i <= entries@.len(),
                router.wf(),
                router.configs().len() == i,
                forall|m: int| 0 <= m < i ==> config_of_entry(entries@[m], #[trigger] router.configs()[m]),
                forall|name: Seq<char>|
                    match (#[trigger] lookup(router.providers(), name), last_usable(entries@.take(i as int), name)) {
                        (Some(c), Some(e)) => entry_settings(e, c),
                        (None, None) => true,
                        _ => false,
                    },
            decreases entries@.len() - i,
        {
            let e = &entries[i];
            router.provider_configs.push(
                ProviderConfig {
                    id: e.id.clone(),
                    name: e.name.clone(),
                    env_key: String::new(),
                    base_url: e.base_url.clone(),
                    default_model: e.default_model.clone(),
                    context_length: e.context_length,
                    models: clone_models(&e.models),
                },
            );
            assert(entries@.take(i + 1).drop_last() =~= entries@.take(i as int));
            assert(entries@.take(i + 1).last() == entries@[i as int]);
            let key = chars_of(e.api_key.as_str());
            let id = chars_of(e.id.as_str());
            let local = chars_eq(&id, &chars_of("llamacpp")) || chars_eq(&id, &chars_of("local"));
            if key.len() > 0 || local {
                let api_key = if key.len() == 0 {
                    string_of(&chars_of("unused"))
                } else {
                    e.api_key.clone()
                };
                let config = OpenAiConfig {
                    api_key,
                    base_url: e.base_url.clone(),
                    model: e.default_model.clone(),
                    context_length: e.context_length,
                    provider_name: e.id.clone(),
                };
                let ghost before = router.providers();
                router.register_openai_compatible(e.id.as_str(), config);
                proof {
                    let p = router.providers().last();
                    assert forall|name: Seq<char>|
                        match (#[trigger] lookup(router.providers(), name), last_usable(entries@.take(i + 1), name)) {
                            (Some(c), Some(x)) => entry_settings(x, c),
                            (None, None) => true,
                            _ => false,
                        } by {
                        lemma_register_lookup(before, p, name);
                    }
                }
            }
            i += 1;
        }
        assert(entries@.take(entries@.len() as int) =~= entries@);
        router
    }

    /// A router over provider definitions, given for each the value of its
    /// key variable and of its base URL override: a definition that needs no
    /// key, or whose key is set and not empty, registers its provider (a later
    /// one with the same id replacing an earlier one).
    pub fn from_provider_configs(
        configs: Vec<ProviderConfig>,
        api_keys: &Vec<Option<String>>,
        base_urls: &Vec<Option<String>>,
    ) -> (r: Self)
        requires
            api_keys@.len() == configs@.len(),
            base_urls@.len() == configs@.len(),
        ensures
            r.wf(),
            r.configs() == configs@,
            forall|name: Seq<char>|
                match (#[trigger] lookup(r.providers(), name), last_configured(configs@, api_keys@, name)) {
                    (Some(c), Some(i)) => config_settings(configs@[i], api_keys@[i], base_urls@[i], c),
                    (None, None) => true,
                    _ => false,
                },
    {
        let mut router = LlmRouter::new();
        let mut i: usize = 0;
        while i < configs.len()
            invariant
                i <= configs@.len(),
                api_keys@.len() == configs@.len(),
                base_urls@.len() == configs@.len(),
                router.wf(),
                router.configs().len() == 0,
                forall|name: Seq<char>|
                    match (#[trigger] lookup(router.providers(), name), last_configured(configs@.take(i as int), api_keys@, name)) {
                        (Some(c), Some(k)) => 0 <= k < i && config_settings(configs@[k], api_keys@[k], base_urls@[k], c),
                        (None, None) => true,
                        _ => false,
                    },
            decreases configs@.len() - i,
        {
            let c = &configs[i];
            assert(configs@.take(i + 1).drop_last() =~= configs@.take(i as int));
            assert(configs@.take(i + 1).last() == configs@[i as int]);
            let no_key = chars_of(c.env_key.as_str()).len() == 0;
            let key: Option<String> = if no_key {
                Some(string_of(&chars_of("unused")))
            } else {
                match &api_keys[i] {
                    Some(k) => if chars_of(k.as_str()).len() > 0 {
                        Some(k.clone())
                    } else {
                        None
                    },
                    None => None,
                }
            };
            match key {
                Some(api_key) => {
                    let base_url = match &base_urls[i] {
                        Some(u) => u.clone(),
                        None => c.base_url.clone(),
                    };
                    let config = OpenAiConfig {
                        api_key,
                        base_url,
                        model: c.default_model.clone(),
                        context_length: c.context_length,
                        provider_name: c.id.clone(),
                    };
                    let ghost before = router.providers();
                    router.register_openai_compatible(c.id.as_str(), config);
                    proof {
                        let p = router.providers().last();
                        assert forall|name: Seq<char>|
                            match (#[trigger] lookup(router.providers(), name), last_configured(configs@.take(i + 1), api_keys@, name)) {
                                (Some(x), Some(k)) => 0 <= k < i + 1 && config_settings(configs@[k], api_keys@[k], base_urls@[k], x),
                                (None, None) => true,
                                _ => false,
                            } by {
                            lemma_register_lookup(before, p, name);
                        }
                    }
                },
                None => {},
            }
            i += 1;
        }
        assert(configs@.take(configs@.len() as int) =~= configs@);
        router.provider_configs = configs;
        router
    }

    fn listing(&self, name: &String) -> (r: ProviderInfo)
        ensures
            info_of(self.configs(), *name, r),
    {
        let ghost cs = self.provider_configs@;
        let mut i: usize = 0;
        assert(cs.skip(0) =~= cs);
        while i < self.provider_configs.len()
            invariant
                cs == self.provider_configs@,
                i <= cs.len(),
                first_config(cs, name@) == first_config(cs.skip(i as int), name@),
            decreases cs.len() - i,
        {
            assert(cs.skip(i as int)[0] == cs[i as int]);
            assert(cs.skip(i as int).drop_first() =~= cs.skip(i + 1));
            let c = &self.provider_configs[i];
            if chars_eq(&chars_of(c.id.as_str()), &chars_of(name.as_str())) {
                return ProviderInfo { id: name.clone(), name: c.name.clone(), models: clone_models(&c.models) };
            }
            i += 1;
        }
        ProviderInfo { id: name.clone(), name: name.clone(), models: Vec::new() }
    }

    /// The registered providers with display name and models from their
    /// definitions, in ascending order of name.
    pub fn providers_info(&self) -> (r: Vec<ProviderInfo>)
        requires
            self.wf(),
        ensures
            r@.len() == self.providers().len(),
            sorted_by(r@, info_id(), false),
            forall|i: int| 0 <= i < r@.len() ==> info_of(self.configs(), r@[i].id, #[trigger] r@[i]),
            forall|i: int| 0 <= i < r@.len() ==> is_registered(self.providers(), (#[trigger] r@[i]).id),
            forall|j: int| 0 <= j < self.providers().len() ==> is_listed(r@, (#[trigger] self.providers()[j]).0),
    {
        let mut u: Vec<ProviderInfo> = Vec::new();
        let mut keys: Vec<Vec<char>> = Vec::new();
        let mut i: usize = 0;
        while i < self.providers.len()
            invariant
                i <= self.providers@.len(),
                u@.len() == i,
                keys@.len() == i,
                forall|m: int| 0 <= m < i ==> #[trigger] keys@[m]@ == info_id()(u@[m]),
                forall|m: int| 0 <= m < i ==> info_of(self.configs(), self.providers@[m].0, #[trigger] u@[m]),
            decreases self.providers@.len() - i,
        {
            let info = self.listing(&self.providers[i].0);
            keys.push(chars_of(info.id.as_str()));
            u.push(info);
            i += 1;
        }
        let ghost us = u@;
        let r = stable_sort_by(u, keys, false, Ghost(info_id()));
        proof {
            assert forall|i: int| 0 <= i < r@.len() implies is_registered(self.providers(), (#[trigger] r@[i]).id) by {
                assert(r@.contains(r@[i]));
                lemma_same_keys_contains(r@, us, info_id(), r@[i]);
                let j = choose|j: int| 0 <= j < us.len() && us[j] == r@[i];
                assert(self.providers()[j].0 == r@[i].id);
            }
            assert forall|i: int| 0 <= i < r@.len() implies info_of(self.configs(), r@[i].id, #[trigger] r@[i]) by {
                assert(r@.contains(r@[i]));
                lemma_same_keys_contains(r@, us, info_id(), r@[i]);
            }
            assert forall|k: Seq<char>| #[trigger] us.filter(key_is(info_id(), k)) == r@.filter(key_is(info_id(), k)) by {}
            assert forall|j: int| 0 <= j < self.providers().len() implies is_listed(r@, (#[trigger] self.providers()[j]).0) by {
                assert(us.contains(us[j]));
                lemma_same_keys_contains(us, r@, info_id(), us[j]);
                let i = choose|i: int| 0 <= i < r@.len() && r@[i] == us[j];
                assert(r@[i].id == self.providers()[j].0);
            }
        }
        r
    }

    /// The file the provider entries are kept in: `{data_dir}/providers.json`.
    pub fn providers_file_path(data_dir: &str) -> (r: String)
        ensures
            r@ == data_dir@ + "/providers.json"@,
    {
        let mut out = chars_of(data_dir);
        push_str(&mut out, "/providers.json");
        string_of(&out)
    }
}

impl Default for LlmRouter {
    fn default() -> (r: Self)
        ensures
            r.wf(),
            r.providers().len() == 0,
            r.configs().len() == 0,
    {
        LlmRouter::new()
    }
}

} // verus!
