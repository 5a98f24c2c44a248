//! The cache plugin: it turns a request into the settings the proxy engine
//! caches it with, and handles `PURGE` of a cached `GET` response.
use vstd::prelude::*;
use crate::outside::{
    base64_encode, base64_of, byte_size_of, duration_of, parse_byte_size, sha256_of, sha256_text,
};
use crate::duration::{duration_refused, read_duration};
use crate::plugin::{
    conf_text, copy_texts, texts_view, HttpResponse, PluginCategory, PluginConf, PluginError, PluginStep,
    ResponseView, Span,
};
use crate::text::text_eq;

verus! {

/// The memory cache size when none is configured: 100 MiB.
pub const DEFAULT_MEMORY_SIZE: u64 = 104857600;

/// The largest memory cache size: 1 GiB.
pub const MAX_MEMORY_SIZE: u64 = 1073741824;

/// The body size cap when none is configured: 1 MB.
pub const DEFAULT_MAX_FILE_SIZE: u64 = 1000000;

/// Where cached responses are kept.
#[derive(Debug)]
pub enum BackendChoice {
    /// On disk, under this directory.
    File(String),
    /// In memory, with this capacity in bytes.
    Memory(u64),
}

/// The memory cache size: the configured one (100 MiB by default), capped
/// at 1 GiB.
pub open spec fn memory_capacity(cache_max_size: Option<u64>) -> u64 {
    let size = match cache_max_size {
        Some(s) => s,
        None => DEFAULT_MEMORY_SIZE,
    };
    if size < MAX_MEMORY_SIZE {
        size
    } else {
        MAX_MEMORY_SIZE
    }
}

/// Picks the cache backend: on disk where a cache directory is configured,
/// else in memory with the configured size (100 MiB by default), capped at
/// 1 GiB.
pub fn get_cache_backend(cache_directory: Option<String>, cache_max_size: Option<u64>) -> (r:
    BackendChoice)
    ensures
        cache_directory matches Some(d) ==> (r matches BackendChoice::File(f) && f@ == d@),
        cache_directory is None ==> r == BackendChoice::Memory(memory_capacity(cache_max_size)),
{
    match cache_directory {
        Some(d) => BackendChoice::File(d),
        None => {
            let size = match cache_max_size {
                Some(s) => s,
                None => DEFAULT_MEMORY_SIZE,
            };
            BackendChoice::Memory(
                if size < MAX_MEMORY_SIZE {
                    size
                } else {
                    MAX_MEMORY_SIZE
                },
            )
        },
    }
}

/// The byte budget of the eviction manager: the configured cache size, or
/// 100 MiB.
pub fn get_eviction_capacity(cache_max_size: Option<u64>) -> (r: u64)
    ensures
        r == match cache_max_size {
            Some(s) => s,
            None => DEFAULT_MEMORY_SIZE,
        },
{
    match cache_max_size {
        Some(s) => s,
        None => DEFAULT_MEMORY_SIZE,
    }
}

/// The single-flight lock slot for a lock duration: 1, 2 or 3 whole seconds
/// each have their own; any other duration means no lock.
pub fn get_cache_lock(lock: Span) -> (r: Option<u64>)
    ensures
        r == (if 1 <= lock.secs <= 3 { Some(lock.secs) } else { None }),
{
    if 1 <= lock.secs && lock.secs <= 3 {
        Some(lock.secs)
    } else {
        None
    }
}

/// What a request's entries in the configured headers add to the key
/// prefix: each non-empty value followed by `:`.
pub open spec fn values_part(values: Seq<Seq<char>>) -> Seq<char>
    decreases values.len(),
{
    if values.len() == 0 {
        Seq::empty()
    } else {
        values_part(values.drop_last()) + if values.last().len() > 0 {
            values.last() + seq![':']
        } else {
            Seq::empty()
        }
    }
}

/// The key prefix: the namespace followed by `:`, if any, then the header
/// values.
pub open spec fn prefix_spec(namespace: Option<Seq<char>>, values: Seq<Seq<char>>) -> Seq<char> {
    match namespace {
        Some(n) => n + seq![':'] + values_part(values),
        None => values_part(values),
    }
}

/// A cache key as plain text: namespace and primary part.
pub type KeyView = (Seq<char>, Seq<char>);

/// The key of a request: the prefix is the namespace, the method followed
/// by the URI is the primary part.
pub open spec fn key_spec(prefix: Seq<char>, method: Seq<char>, uri: Seq<char>) -> KeyView {
    (prefix, method + uri)
}

/// The key the engine caches a request under, given the prefix recorded
/// in the request's state.
pub open spec fn state_key(prefix: Option<Seq<char>>, method: Seq<char>, uri: Seq<char>) -> KeyView {
    key_spec(
        match prefix {
            Some(p) => p,
            None => Seq::empty(),
        },
        method,
        uri,
    )
}

/// A cache key: the namespace (the prefix) and the primary part.
#[derive(Debug)]
pub struct CacheKey {
    pub namespace: String,
    pub primary: String,
}

impl CacheKey {
    pub open spec fn view_parts(&self) -> KeyView {
        (self.namespace@, self.primary@)
    }
}

/// The per-request scratch area the plugins write to.
#[derive(Debug)]
pub struct State {
    pub cache_prefix: Option<String>,
    pub cache_max_ttl: Option<Span>,
    pub cache_reading: Option<u32>,
    pub cache_writing: Option<u32>,
}

impl State {
    pub open spec fn prefix_view(&self) -> Option<Seq<char>> {
        match self.cache_prefix {
            Some(p) => Some(p@),
            None => None,
        }
    }

    /// A state with nothing recorded.
    pub fn new() -> (r: State)
        ensures
            r.prefix_view() is None,
            r.cache_max_ttl is None,
            r.cache_reading is None,
            r.cache_writing is None,
    {
        State { cache_prefix: None, cache_max_ttl: None, cache_reading: None, cache_writing: None }
    }
}

/// The key the engine caches a request under, from the prefix recorded in
/// its state, its method and its URI.
pub fn request_cache_key(ctx: &State, method: &str, uri: &str) -> (r: CacheKey)
    ensures
        r.view_parts() == state_key(ctx.prefix_view(), method@, uri@),
{
    let namespace = match &ctx.cache_prefix {
        Some(p) => p.clone(),
        None => String::new(),
    };
    let primary = String::from_str(method).concat(uri);
    CacheKey { namespace, primary }
}


/// What the plugin asks of the engine once it has seen a request.
pub enum ActionView {
    Skip,
    Respond(ResponseView),
    Purge(KeyView),
    Enable(CacheSetup),
}

/// How the engine is to cache a request.
#[derive(PartialEq, Eq, Structural, Clone, Copy, Debug)]
pub struct CacheSetup {
    /// Whether the shared eviction manager is attached.
    pub eviction: bool,
    /// Whether the shared cacheability predictor is attached.
    pub predictor: bool,
    /// The single-flight lock slot, in seconds of waiting, if any.
    pub lock: Option<u64>,
    /// The cap on a cached body in bytes, if any.
    pub max_file_size: Option<u64>,
}

/// What the plugin asks of the engine once it has seen a request.
#[derive(Debug)]
pub enum CacheAction {
    /// Go on without caching.
    Skip,
    /// Answer with this response.
    Respond(HttpResponse),
    /// Remove this key from the backend, then answer `204 No Content`.
    Purge(CacheKey),
    /// Cache the request with these settings and go on.
    Enable(CacheSetup),
}

impl CacheAction {
    pub open spec fn view_action(&self) -> ActionView {
        match self {
            CacheAction::Skip => ActionView::Skip,
            CacheAction::Respond(r) => ActionView::Respond(r.view_parts()),
            CacheAction::Purge(k) => ActionView::Purge(k.view_parts()),
            CacheAction::Enable(s) => ActionView::Enable(*s),
        }
    }
}

/// The answer to a purge from an address that may not purge.
pub open spec fn forbidden_view() -> ResponseView {
    (403, Seq::empty(), "Forbidden, ip is not allowed"@)
}

/// The answer after a purge.
pub fn purged_response() -> (r: HttpResponse)
    ensures
        r.view_parts() == (204u16, Seq::<(Seq<char>, Seq<char>)>::empty(), Seq::<char>::empty()),
{
    let r = HttpResponse::text(204, "");
    proof {
        reveal_strlit("");
    }
    assert(r.headers_spec() =~= Seq::empty());
    assert(r.body@ =~= Seq::<char>::empty());
    r
}

/// Methods the plugin acts on.
pub open spec fn is_cache_method(method: Seq<char>) -> bool {
    method == "GET"@ || method == "HEAD"@ || method == "PURGE"@
}

/// The prefix recorded after a request: the new one where it is not empty,
/// else what was recorded before.
pub open spec fn prefix_after(old_prefix: Option<Seq<char>>, prefix: Seq<char>) -> Option<Seq<char>> {
    if prefix.len() > 0 {
        Some(prefix)
    } else {
        old_prefix
    }
}

/// The slot of a lock duration text; the default is one second.
pub open spec fn lock_slot_of(text: Seq<char>) -> Option<u64> {
    let secs: u64 = if text.len() == 0 {
        1
    } else {
        match duration_of(text) {
            Some(d) => d.0,
            None => 0,
        }
    };
    if 1 <= secs <= 3 {
        Some(secs)
    } else {
        None
    }
}

/// The max ttl a text configures: none where it is empty.
pub open spec fn max_ttl_of(text: Seq<char>) -> Option<Span> {
    if text.len() == 0 {
        None
    } else {
        match duration_of(text) {
            Some(d) => Some(Span { secs: d.0, nanos: d.1 }),
            None => None,
        }
    }
}

/// The body cap a text configures: 1 MB where it is empty.
pub open spec fn max_file_size_of(text: Seq<char>) -> u64 {
    if text.len() == 0 {
        DEFAULT_MAX_FILE_SIZE
    } else {
        match byte_size_of(text) {
            Some(n) => n,
            None => 0,
        }
    }
}

/// The cache plugin.
pub struct Cache {
    plugin_step: PluginStep,
    eviction: bool,
    predictor: bool,
    lock: Option<u64>,
    max_file_size: u64,
    max_ttl: Option<Span>,
    namespace: Option<String>,
    headers: Option<Vec<String>>,
    purge_ip_list: Vec<String>,
    hash_value: String,
}

impl Cache {
    pub closed spec fn step_spec(&self) -> PluginStep {
        self.plugin_step
    }

    pub closed spec fn eviction_spec(&self) -> bool {
        self.eviction
    }

    pub closed spec fn predictor_spec(&self) -> bool {
        self.predictor
    }

    pub closed spec fn lock_spec(&self) -> Option<u64> {
        self.lock
    }

    pub closed spec fn max_file_size_spec(&self) -> u64 {
        self.max_file_size
    }

    pub closed spec fn max_ttl_spec(&self) -> Option<Span> {
        self.max_ttl
    }

    pub closed spec fn namespace_spec(&self) -> Option<Seq<char>> {
        match self.namespace {
            Some(n) => Some(n@),
            None => None,
        }
    }

    pub closed spec fn headers_spec(&self) -> Option<Seq<Seq<char>>> {
        match self.headers {
            Some(h) => Some(texts_view(h@)),
            None => None,
        }
    }

    pub closed spec fn purge_ip_list_spec(&self) -> Seq<Seq<char>> {
        texts_view(self.purge_ip_list@)
    }

    pub closed spec fn hash_key_spec(&self) -> Seq<char> {
        self.hash_value@
    }

    /// The fingerprint of a configuration: the base64 of the SHA-256 digest
    /// of its text.
    pub open spec fn fingerprint(conf: &PluginConf) -> Seq<char> {
        base64_of(sha256_of(conf_text(conf.view_entries())))
    }

    /// Whether the options are refused: a lock or max ttl that is not a
    /// duration, a body cap that is not a byte size, or a phase other than
    /// the request one.
    pub open spec fn conf_refused(conf: &PluginConf) -> bool {
        let lock = conf.text_spec("lock"@);
        let ttl = conf.text_spec("max_ttl"@);
        let size = conf.text_spec("max_file_size"@);
        ||| duration_refused(lock)
        ||| duration_refused(ttl)
        ||| (size.len() > 0 && byte_size_of(size) is None)
        ||| conf.step_spec() != PluginStep::Request
    }

    /// Builds the plugin from options `eviction`, `predictor`, `lock`,
    /// `max_ttl`, `max_file_size`, `namespace`, `headers`, `purge_ip_list`
    /// and `step`.
    pub fn new(conf: &PluginConf) -> (r: Result<Cache, PluginError>)
        ensures
            r is Err <==> Self::conf_refused(conf),
            r matches Err(e) ==> e.category_spec() == "cache"@,
            r matches Err(e) ==> ({
                let lock = conf.text_spec("lock"@);
                let ttl = conf.text_spec("max_ttl"@);
                let size = conf.text_spec("max_file_size"@);
                !duration_refused(lock) && !duration_refused(ttl) && !(size.len() > 0 && byte_size_of(size) is None)
                    ==> e.message_spec() == "Cache plugin should be executed at request step"@
            }),
            r matches Ok(c) ==> {
                &&& c.step_spec() == conf.step_spec()
                &&& c.eviction_spec() == conf.has_spec("eviction"@)
                &&& c.predictor_spec() == conf.has_spec("predictor"@)
                &&& c.lock_spec() == lock_slot_of(conf.text_spec("lock"@))
                &&& c.max_ttl_spec() == max_ttl_of(conf.text_spec("max_ttl"@))
                &&& c.max_file_size_spec() == max_file_size_of(conf.text_spec("max_file_size"@))
                &&& c.namespace_spec() == (if conf.text_spec("namespace"@).len() == 0 {
                    None
                } else {
                    Some(conf.text_spec("namespace"@))
                })
                &&& c.headers_spec() == (if conf.items_spec("headers"@).len() == 0 {
                    None
                } else {
                    Some(conf.items_spec("headers"@))
                })
                &&& c.purge_ip_list_spec() == conf.items_spec("purge_ip_list"@)
                &&& c.hash_key_spec() == Self::fingerprint(conf)
            },
    {
        proof {
            reveal_strlit("cache");
        }
        let eviction = conf.contains_key("eviction");
        let plugin_step = conf.get_step();
        let lock_text = conf.get_text("lock");
        let lock_span = if lock_text.as_str().unicode_len() > 0 {
            match read_duration(lock_text.as_str()) {
                Ok(d) => d,
                Err(e) => {
                    return Err(PluginError::invalid(PluginCategory::Cache, e));
                },
            }
        } else {
            Span { secs: 1, nanos: 0 }
        };
        let ttl_text = conf.get_text("max_ttl");
        let max_ttl = if ttl_text.as_str().unicode_len() > 0 {
            match read_duration(ttl_text.as_str()) {
                Ok(d) => Some(d),
                Err(e) => {
                    return Err(PluginError::invalid(PluginCategory::Cache, e));
                },
            }
        } else {
            None
        };
        let size_text = conf.get_text("max_file_size");
        let max_file_size = if size_text.as_str().unicode_len() > 0 {
            match parse_byte_size(size_text.as_str()) {
                Ok(n) => n,
                Err(e) => {
                    return Err(PluginError::invalid(PluginCategory::Cache, e));
                },
            }
        } else {
            DEFAULT_MAX_FILE_SIZE
        };
        let namespace_text = conf.get_text("namespace");
        let namespace = if namespace_text.as_str().unicode_len() == 0 {
            None
        } else {
            Some(namespace_text)
        };
        let header_list = conf.get_list("headers");
        let headers = if header_list.len() == 0 {
            None
        } else {
            Some(header_list)
        };
        let predictor = conf.contains_key("predictor");
        let purge_ip_list = conf.get_list("purge_ip_list");
        let text = conf.render();
        let digest = sha256_text(text.as_str());
        let hash_value = base64_encode(digest.as_slice());
        if plugin_step != PluginStep::Request {
            return Err(
                PluginError::invalid(
                    PluginCategory::Cache,
                    String::from_str("Cache plugin should be executed at request step"),
                ),
            );
        }
        Ok(
            Cache {
                plugin_step,
                eviction,
                predictor,
                lock: get_cache_lock(lock_span),
                max_file_size,
                max_ttl,
                namespace,
                headers,
                purge_ip_list,
                hash_value,
            },
        )
    }
}


impl Cache {
    /// The phase the plugin runs at.
    pub fn step(&self) -> (r: PluginStep)
        ensures
            r == self.step_spec(),
    {
        self.plugin_step
    }

    /// The plugin's category.
    pub fn category(&self) -> (r: PluginCategory)
        ensures
            r == PluginCategory::Cache,
    {
        PluginCategory::Cache
    }

    /// The fingerprint of the configuration the plugin was built from, by
    /// which equal plugins are recognised.
    pub fn hash_key(&self) -> (r: String)
        ensures
            r@ == self.hash_key_spec(),
    {
        self.hash_value.clone()
    }

    /// Whether the eviction manager is attached.
    pub fn eviction(&self) -> (r: bool)
        ensures
            r == self.eviction_spec(),
    {
        self.eviction
    }

    /// Whether the cacheability predictor is attached.
    pub fn predictor(&self) -> (r: bool)
        ensures
            r == self.predictor_spec(),
    {
        self.predictor
    }

    /// The single-flight lock slot, if any.
    pub fn lock(&self) -> (r: Option<u64>)
        ensures
            r == self.lock_spec(),
    {
        self.lock
    }

    /// The cap on a cached body, in bytes.
    pub fn max_file_size(&self) -> (r: u64)
        ensures
            r == self.max_file_size_spec(),
    {
        self.max_file_size
    }

    /// The ceiling on a cached entry's time to live.
    pub fn max_ttl(&self) -> (r: Option<Span>)
        ensures
            r == self.max_ttl_spec(),
    {
        self.max_ttl
    }

    /// The request headers whose values go into the key, in order.
    pub fn headers(&self) -> (r: Option<Vec<String>>)
        ensures
            r is Some <==> self.headers_spec() is Some,
            r matches Some(h) ==> texts_view(h@) == self.headers_spec()->0,
    {
        match &self.headers {
            Some(h) => Some(copy_texts(h)),
            None => None,
        }
    }

    /// The addresses and networks that may purge.
    pub fn purge_ip_list(&self) -> (r: Vec<String>)
        ensures
            texts_view(r@) == self.purge_ip_list_spec(),
    {
        copy_texts(&self.purge_ip_list)
    }

    /// The key prefix for a request whose configured headers hold `values`
    /// (empty where a header is absent).
    pub open spec fn prefix_of(&self, values: Seq<Seq<char>>) -> Seq<char> {
        prefix_spec(self.namespace_spec(), values)
    }

    /// Builds the key prefix for a request.
    pub fn key_prefix(&self, values: &Vec<String>) -> (r: String)
        ensures
            r@ == self.prefix_of(texts_view(values@)),
    {
        proof {
            reveal_strlit(":");
        }
        let mut r = match &self.namespace {
            Some(n) => n.clone().concat(":"),
            None => String::new(),
        };
        assert(":"@ =~= seq![':']);
        let ghost head = match self.namespace_spec() {
            Some(n) => n + seq![':'],
            None => Seq::<char>::empty(),
        };
        assert(r@ =~= head + values_part(texts_view(values@).subrange(0, 0)));
        let mut i: usize = 0;
        while i < values.len()
            invariant
                i <= values@.len(),
                r@ == head + values_part(texts_view(values@).subrange(0, i as int)),
                ":"@ == seq![':'],
            decreases values@.len() - i,
        {
            let ghost vs = texts_view(values@);
            assert(vs.subrange(0, i + 1).drop_last() =~= vs.subrange(0, i as int));
            assert(vs.subrange(0, i + 1).last() == values@[i as int]@);
            let ghost next = vs.subrange(0, i + 1);
            let ghost before = r@;
            assert(values_part(next) == values_part(vs.subrange(0, i as int)) + if next.last().len()
                > 0 {
                next.last() + seq![':']
            } else {
                Seq::<char>::empty()
            });
            if values[i].as_str().unicode_len() > 0 {
                r = r.concat(values[i].as_str()).concat(":");
                assert(r@ =~= before + (next.last() + seq![':']));
            } else {
                assert(before =~= before + Seq::<char>::empty());
            }
            i += 1;
            assert(r@ =~= head + values_part(vs.subrange(0, i as int)));
        }
        assert(texts_view(values@).subrange(0, values@.len() as int) =~= texts_view(values@));
        assert(r@ =~= self.prefix_of(texts_view(values@)));
        r
    }

    /// The key a purge removes: the `GET` key of the URI, under the prefix
    /// recorded after the request.
    pub open spec fn purge_key(&self, old_prefix: Option<Seq<char>>, values: Seq<Seq<char>>, uri: Seq<char>) -> KeyView {
        state_key(prefix_after(old_prefix, self.prefix_of(values)), "GET"@, uri)
    }

    /// What the plugin asks of the engine for a request at `step` by
    /// `method` for `uri`, whose configured headers hold `values`, given the
    /// outcome of matching the client address against the purge list and
    /// the prefix recorded before.
    pub open spec fn action_spec(
        &self,
        step: PluginStep,
        method: Seq<char>,
        uri: Seq<char>,
        values: Seq<Seq<char>>,
        purge_allowed: Result<bool, Seq<char>>,
        old_prefix: Option<Seq<char>>,
    ) -> ActionView {
        if step != self.step_spec() || !is_cache_method(method) {
            ActionView::Skip
        } else if method == "PURGE"@ {
            match purge_allowed {
                Err(e) => ActionView::Respond((400, Seq::empty(), e)),
                Ok(false) => ActionView::Respond(forbidden_view()),
                Ok(true) => ActionView::Purge(self.purge_key(old_prefix, values, uri)),
            }
        } else {
            ActionView::Enable(
                CacheSetup {
                    eviction: self.eviction_spec(),
                    predictor: self.predictor_spec(),
                    lock: self.lock_spec(),
                    max_file_size: if self.max_file_size_spec() > 0 {
                        Some(self.max_file_size_spec())
                    } else {
                        None
                    },
                },
            )
        }
    }

    /// Handles a request at `step` by `method` for `uri`. `values` holds the
    /// request's values of the configured headers, in order (empty where
    /// absent); `purge_allowed` is the outcome of matching the client
    /// address against the purge list; `stats` is the backend's count of
    /// reads and writes in progress, where it keeps one. The key prefix is
    /// recorded in `ctx` where it is not empty; for cached requests the max
    /// ttl and the backend's counts are recorded too.
    pub fn handle_request(
        &self,
        step: PluginStep,
        method: &str,
        uri: &str,
        values: &Vec<String>,
        purge_allowed: Result<bool, String>,
        stats: Option<(u32, u32)>,
        ctx: &mut State,
    ) -> (r: CacheAction)
        ensures
            r.view_action() == self.action_spec(
                step,
                method@,
                uri@,
                texts_view(values@),
                match purge_allowed {
                    Ok(b) => Ok(b),
                    Err(e) => Err(e@),
                },
                old(ctx).prefix_view(),
            ),
            step != self.step_spec() || !is_cache_method(method@) ==> *final(ctx) == *old(ctx),
            step == self.step_spec() && is_cache_method(method@) ==> {
                &&& final(ctx).prefix_view() == prefix_after(
                    old(ctx).prefix_view(),
                    self.prefix_of(texts_view(values@)),
                )
                &&& final(ctx).cache_max_ttl == (if method@ == "PURGE"@ {
                    old(ctx).cache_max_ttl
                } else {
                    self.max_ttl_spec()
                })
                &&& final(ctx).cache_reading == match stats {
                    Some((reading, _)) if method@ != "PURGE"@ => Some(reading),
                    _ => old(ctx).cache_reading,
                }
                &&& final(ctx).cache_writing == match stats {
                    Some((_, writing)) if method@ != "PURGE"@ => Some(writing),
                    _ => old(ctx).cache_writing,
                }
            },
    {
        if step != self.plugin_step {
            return CacheAction::Skip;
        }
        let purge = text_eq(method, "PURGE");
        if !(text_eq(method, "GET") || text_eq(method, "HEAD") || purge) {
            return CacheAction::Skip;
        }
        let prefix = self.key_prefix(values);
        if prefix.as_str().unicode_len() > 0 {
            ctx.cache_prefix = Some(prefix);
        }
        if purge {
            match purge_allowed {
                Err(e) => {
                    let resp = HttpResponse { status: 400, headers: Vec::new(), body: e };
                    assert(resp.headers_spec() =~= Seq::empty());
                    return CacheAction::Respond(resp);
                },
                Ok(false) => {
                    let resp = HttpResponse::text(403, "Forbidden, ip is not allowed");
                    assert(resp.headers_spec() =~= Seq::empty());
                    return CacheAction::Respond(resp);
                },
                Ok(true) => {
                    return CacheAction::Purge(request_cache_key(ctx, "GET", uri));
                },
            }
        }
        ctx.cache_max_ttl = self.max_ttl;
        if let Some((reading, writing)) = stats {
            ctx.cache_reading = Some(reading);
            ctx.cache_writing = Some(writing);
        }
        CacheAction::Enable(
            CacheSetup {
                eviction: self.eviction,
                predictor: self.predictor,
                lock: self.lock,
                max_file_size: if self.max_file_size > 0 {
                    Some(self.max_file_size)
                } else {
                    None
                },
            },
        )
    }
}

/// A purge removes the very key that a `GET` of the same URI, with the same
/// header values and the same recorded prefix, is cached under.
pub proof fn lemma_purge_targets_get(
    cache: &Cache,
    values: Seq<Seq<char>>,
    uri: Seq<char>,
    old_prefix: Option<Seq<char>>,
)
    ensures
        cache.action_spec(PluginStep::Request, "PURGE"@, uri, values, Ok(true), old_prefix) == (if cache.step_spec()
            == PluginStep::Request {
            ActionView::Purge(
                state_key(prefix_after(old_prefix, cache.prefix_of(values)), "GET"@, uri),
            )
        } else {
            ActionView::Skip
        }),
{
}

/// Requests by any method other than `GET`, `HEAD` and `PURGE` are left
/// alone: nothing is asked of the engine.
pub proof fn lemma_method_filter(
    cache: &Cache,
    step: PluginStep,
    method: Seq<char>,
    uri: Seq<char>,
    values: Seq<Seq<char>>,
    purge_allowed: Result<bool, Seq<char>>,
    old_prefix: Option<Seq<char>>,
)
    requires
        !is_cache_method(method),
    ensures
        cache.action_spec(step, method, uri, values, purge_allowed, old_prefix) == ActionView::Skip,
{
}

} // verus!
