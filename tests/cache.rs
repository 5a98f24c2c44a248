use pingap::cache::{
    get_cache_backend, get_cache_lock, get_eviction_capacity, purged_response, request_cache_key,
    BackendChoice, Cache, CacheAction, State,
};
use pingap::duration::{duration_bound_of, DURATION_LIMIT_NS};
use pingap::plugin::{PluginConf, PluginError, PluginStep, Span};

fn texts(items: &[&str]) -> Vec<String> {
    items.iter().map(|s| s.to_string()).collect()
}

fn cache_conf() -> PluginConf {
    PluginConf::new()
        .with_flag("eviction")
        .with_list("headers", texts(&["Accept-Encoding"]))
        .with_text("lock", "2s")
        .with_text("max_file_size", "100kb")
        .with_flag("predictor")
        .with_text("max_ttl", "1m")
}

#[test]
fn test_cache_params() {
    let params = Cache::new(&cache_conf()).unwrap();
    assert_eq!(true, params.eviction());
    assert_eq!(r#"Some(["Accept-Encoding"])"#, format!("{:?}", params.headers()));
    assert_eq!(true, params.lock().is_some());
    assert_eq!(100 * 1000, params.max_file_size());
    assert_eq!(60, params.max_ttl().unwrap().secs);
    assert_eq!(true, params.predictor());
}

#[test]
fn test_cache() {
    let cache = Cache::new(&cache_conf().with_text("namespace", "pingap")).unwrap();
    let mut ctx = State::new();
    let action = cache.handle_request(
        PluginStep::Request,
        "GET",
        "/vicanso/pingap?size=1",
        &texts(&["gzip"]),
        Ok(false),
        None,
        &mut ctx,
    );
    assert_eq!("pingap:gzip:", ctx.cache_prefix.unwrap());
    assert!(matches!(action, CacheAction::Enable(_)));
    assert_eq!(100 * 1000, cache.max_file_size());
}

#[test]
fn cache_enables_with_settings() {
    let cache = Cache::new(&cache_conf()).unwrap();
    let mut ctx = State::new();
    let action =
        cache.handle_request(PluginStep::Request, "HEAD", "/a", &texts(&["br"]), Ok(true), None, &mut ctx);
    match action {
        CacheAction::Enable(setup) => {
            assert!(setup.eviction);
            assert!(setup.predictor);
            assert_eq!(Some(2), setup.lock);
            assert_eq!(Some(100_000), setup.max_file_size);
        },
        other => panic!("unexpected {:?}", other),
    }
    assert_eq!(Some("br:".to_string()), ctx.cache_prefix);
    assert_eq!(Some(Span { secs: 60, nanos: 0 }), ctx.cache_max_ttl);
}

#[test]
fn cache_skips_other_methods() {
    let cache = Cache::new(&cache_conf().with_text("namespace", "pingap")).unwrap();
    for method in ["POST", "PUT", "DELETE", "OPTIONS", "get"] {
        let mut ctx = State::new();
        let action =
            cache.handle_request(PluginStep::Request, method, "/", &texts(&["gzip"]), Ok(true), None, &mut ctx);
        assert!(matches!(action, CacheAction::Skip));
        assert!(ctx.cache_prefix.is_none());
        assert!(ctx.cache_max_ttl.is_none());
    }
}

#[test]
fn cache_skips_other_steps() {
    let cache = Cache::new(&cache_conf()).unwrap();
    let mut ctx = State::new();
    let action =
        cache.handle_request(PluginStep::ProxyUpstream, "GET", "/", &texts(&["gzip"]), Ok(true), None, &mut ctx);
    assert!(matches!(action, CacheAction::Skip));
    assert!(ctx.cache_prefix.is_none());
}

#[test]
fn cache_purge_forbidden() {
    let cache = Cache::new(&cache_conf().with_text("namespace", "pingap")).unwrap();
    let mut ctx = State::new();
    let action =
        cache.handle_request(PluginStep::Request, "PURGE", "/vicanso/pingap", &texts(&["gzip"]), Ok(false), None, &mut ctx);
    match action {
        CacheAction::Respond(resp) => {
            assert_eq!(403, resp.status);
            assert_eq!("Forbidden, ip is not allowed", resp.body);
        },
        other => panic!("unexpected {:?}", other),
    }
}

#[test]
fn cache_purge_rule_error() {
    let cache = Cache::new(&cache_conf()).unwrap();
    let mut ctx = State::new();
    let action = cache.handle_request(
        PluginStep::Request,
        "PURGE",
        "/",
        &texts(&[]),
        Err("invalid ip".to_string()),
        None,
        &mut ctx,
    );
    match action {
        CacheAction::Respond(resp) => {
            assert_eq!(400, resp.status);
            assert_eq!("invalid ip", resp.body);
        },
        other => panic!("unexpected {:?}", other),
    }
}

#[test]
fn cache_purge_targets_get_key() {
    let cache = Cache::new(&cache_conf().with_text("namespace", "pingap")).unwrap();
    let mut purge_ctx = State::new();
    let action = cache.handle_request(
        PluginStep::Request,
        "PURGE",
        "/vicanso/pingap?size=1",
        &texts(&["gzip"]),
        Ok(true),
        None,
        &mut purge_ctx,
    );
    let mut get_ctx = State::new();
    cache.handle_request(
        PluginStep::Request,
        "GET",
        "/vicanso/pingap?size=1",
        &texts(&["gzip"]),
        Ok(true),
        None,
        &mut get_ctx,
    );
    let get_key = request_cache_key(&get_ctx, "GET", "/vicanso/pingap?size=1");
    match action {
        CacheAction::Purge(key) => {
            assert_eq!("pingap:gzip:", key.namespace);
            assert_eq!("GET/vicanso/pingap?size=1", key.primary);
            assert_eq!(get_key.namespace, key.namespace);
            assert_eq!(get_key.primary, key.primary);
        },
        other => panic!("unexpected {:?}", other),
    }
    assert_eq!(204, purged_response().status);
}

#[test]
fn cache_prefix_skips_absent_headers() {
    let conf = PluginConf::new().with_list("headers", texts(&["A", "B", "C"]));
    let cache = Cache::new(&conf).unwrap();
    assert_eq!("x:z:", cache.key_prefix(&texts(&["x", "", "z"])));
    assert_eq!("", cache.key_prefix(&texts(&["", "", ""])));
    let mut ctx = State::new();
    cache.handle_request(PluginStep::Request, "GET", "/", &texts(&["", "", ""]), Ok(true), None, &mut ctx);
    assert!(ctx.cache_prefix.is_none());
}

#[test]
fn cache_max_file_size_parses() {
    let cache = Cache::new(&PluginConf::new().with_text("max_file_size", "100kb")).unwrap();
    assert_eq!(100_000, cache.max_file_size());
    let cache = Cache::new(&PluginConf::new()).unwrap();
    assert_eq!(1_000_000, cache.max_file_size());
    assert_eq!(Some(1), cache.lock());
    assert_eq!(None, cache.max_ttl());
    assert!(!cache.eviction());
    assert!(cache.headers().is_none());
}

#[test]
fn cache_rejects_other_steps() {
    for step in ["proxy_upstream", "response"] {
        let r = Cache::new(&PluginConf::new().with_text("step", step));
        match r {
            Err(PluginError::Invalid { category, message }) => {
                assert_eq!("cache", category);
                assert_eq!("Cache plugin should be executed at request step", message);
            },
            Ok(_) => panic!("accepted step {step}"),
        }
    }
    assert!(Cache::new(&PluginConf::new().with_text("step", "request")).is_ok());
}

#[test]
fn cache_rejects_bad_values() {
    assert!(Cache::new(&PluginConf::new().with_text("lock", "soon")).is_err());
    assert!(Cache::new(&PluginConf::new().with_text("max_ttl", "1 lightyear")).is_err());
    assert!(Cache::new(&PluginConf::new().with_text("max_file_size", "big")).is_err());
}

#[test]
fn cache_lock_slots() {
    let cache = Cache::new(&PluginConf::new().with_text("lock", "5s")).unwrap();
    assert_eq!(None, cache.lock());
    assert_eq!(Some(3), get_cache_lock(Span { secs: 3, nanos: 0 }));
    assert_eq!(Some(1), get_cache_lock(Span { secs: 1, nanos: 500 }));
    assert_eq!(None, get_cache_lock(Span { secs: 0, nanos: 900 }));
    assert_eq!(None, get_cache_lock(Span { secs: 4, nanos: 0 }));
}

#[test]
fn cache_backend_choice() {
    match get_cache_backend(Some("/tmp/cache".to_string()), Some(10)) {
        BackendChoice::File(d) => assert_eq!("/tmp/cache", d),
        other => panic!("unexpected {:?}", other),
    }
    assert!(matches!(get_cache_backend(None, None), BackendChoice::Memory(104_857_600)));
    assert!(matches!(get_cache_backend(None, Some(2048)), BackendChoice::Memory(2048)));
    assert!(matches!(
        get_cache_backend(None, Some(5_000_000_000)),
        BackendChoice::Memory(1_073_741_824)
    ));
    assert_eq!(104_857_600, get_eviction_capacity(None));
    assert_eq!(7, get_eviction_capacity(Some(7)));
}

#[test]
fn cache_purge_list_kept() {
    let conf = PluginConf::new().with_list("purge_ip_list", texts(&["127.0.0.1", "10.0.0.0/8"]));
    let cache = Cache::new(&conf).unwrap();
    assert_eq!(texts(&["127.0.0.1", "10.0.0.0/8"]), cache.purge_ip_list());
}

#[test]
fn cache_records_backend_counts() {
    let cache = Cache::new(&cache_conf()).unwrap();
    let mut ctx = State::new();
    cache.handle_request(PluginStep::Request, "GET", "/", &texts(&[]), Ok(true), Some((3, 4)), &mut ctx);
    assert_eq!(Some(3), ctx.cache_reading);
    assert_eq!(Some(4), ctx.cache_writing);
    let mut ctx = State::new();
    cache.handle_request(PluginStep::Request, "PURGE", "/", &texts(&[]), Ok(false), Some((3, 4)), &mut ctx);
    assert_eq!(None, ctx.cache_reading);
    assert_eq!(None, ctx.cache_writing);
}

#[test]
fn cache_refuses_durations_past_the_largest() {
    for text in ["18446744073709551615s 1000000000ns", "18446744073709551616s", "600000000000y"] {
        match Cache::new(&PluginConf::new().with_text("max_ttl", text)) {
            Err(PluginError::Invalid { message, .. }) => assert_eq!("Duration is too long", message),
            Ok(_) => panic!("accepted {text}"),
        }
    }
    let cache = Cache::new(&PluginConf::new().with_text("max_ttl", "1h 30min 20s")).unwrap();
    assert_eq!(Some(Span { secs: 5420, nanos: 0 }), cache.max_ttl());
    let cache = Cache::new(&PluginConf::new().with_text("max_ttl", "100000000000ns")).unwrap();
    assert_eq!(Some(Span { secs: 100, nanos: 0 }), cache.max_ttl());
    let cache = Cache::new(&PluginConf::new().with_text("max_ttl", "18446744073709551615s")).unwrap();
    assert_eq!(Some(Span { secs: u64::MAX, nanos: 0 }), cache.max_ttl());
    let cache = Cache::new(&PluginConf::new().with_text("lock", "2000000000000ms")).unwrap();
    assert_eq!(None, cache.lock());
    let cache = Cache::new(&PluginConf::new().with_text("lock", "2000000000000ns")).unwrap();
    assert_eq!(None, cache.lock());
    let cache = Cache::new(&PluginConf::new().with_text("lock", "3000000000ns")).unwrap();
    assert_eq!(Some(3), cache.lock());
}

#[test]
fn duration_bounds() {
    assert_eq!(0, duration_bound_of(""));
    assert_eq!(0, duration_bound_of("0"));
    assert_eq!(2_000_000_000, duration_bound_of("2s"));
    assert_eq!(5_420_000_000_000, duration_bound_of("1h 30min 20s"));
    assert_eq!(5_420_000_000_000, duration_bound_of("1h30min20s"));
    assert_eq!(1_000_000_000_000, duration_bound_of("1 000 s"));
    assert_eq!(2 * 3_600_000_000_000, duration_bound_of("1.5h"));
    assert_eq!(100_000_000_000, duration_bound_of("100000000000ns"));
    assert_eq!(DURATION_LIMIT_NS, duration_bound_of("18446744073709551615s 1000000000ns"));
}

#[test]
fn cache_hash_key_fingerprints_conf() {
    let a = Cache::new(&cache_conf()).unwrap();
    let b = Cache::new(&cache_conf()).unwrap();
    let c = Cache::new(&cache_conf().with_text("namespace", "pingap")).unwrap();
    assert_eq!(a.hash_key(), b.hash_key());
    assert_ne!(a.hash_key(), c.hash_key());
    assert_eq!(44, a.hash_key().len());
}

#[test]
fn conf_renders_one_option_per_line() {
    let conf = PluginConf::new()
        .with_flag("eviction")
        .with_list("headers", texts(&["A", "B"]))
        .with_text("lock", "2s");
    assert_eq!("eviction=true\nheaders=,A,B\nlock=2s\n", conf.render());
}
