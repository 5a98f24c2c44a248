use pingap::csrf::{generate_token, generate_token_at, validate_token, validate_token_at, Csrf};
use base64::Engine;
use pingap::plugin::{PluginConf, PluginError, PluginStep};
use sha2::Digest;

fn csrf_conf() -> PluginConf {
    PluginConf::new()
        .with_text("token_path", "/csrf-token")
        .with_text("key", "WjrXUG47wu")
        .with_text("ttl", "1h")
}

#[test]
fn test_generate_token() {
    let key = "123";
    let value = generate_token(key);
    assert_eq!(true, validate_token(key, 10, &value));
}

#[test]
fn test_csrf() {
    let csrf = Csrf::new(&csrf_conf()).unwrap();
    let resp = csrf.handle("/csrf-token", "GET", "").unwrap();
    assert_eq!(204, resp.status);
    let binding = resp.headers;
    let cookie = binding[1].1.as_str();
    assert_eq!(true, cookie.starts_with("x-csrf-token="));
    assert_eq!(true, cookie.ends_with("Path=/; Max-Age=3600"));
    assert_eq!(("Cache-Control".to_string(), "no-store".to_string()), binding[0]);
    assert_eq!("Set-Cookie", binding[1].0);
}

#[test]
fn csrf_token_shape() {
    let token = generate_token_at("k", "abcdefghijkl", 255);
    let parts: Vec<&str> = token.split('.').collect();
    assert_eq!(3, parts.len());
    assert_eq!("abcdefghijkl", parts[0]);
    assert_eq!("ff", parts[1]);
    assert_eq!(44, parts[2].len());
    assert!(parts[2].ends_with('='));
}

#[test]
fn csrf_round_trip_in_date() {
    let token = generate_token_at("secret", "nonce_-12345", 1000);
    assert!(validate_token_at("secret", 0, &token, 1000));
    assert!(validate_token_at("secret", 0, &token, 5));
    assert!(validate_token_at("secret", 10, &token, 1000));
    assert!(validate_token_at("secret", 10, &token, 1010));
    assert!(!validate_token_at("secret", 10, &token, 1011));
    assert!(!validate_token_at("secret", 10, &token, 999));
    assert!(!validate_token_at("other", 0, &token, 1000));
}

#[test]
fn csrf_altered_parts_fail() {
    let token = generate_token_at("secret", "nonce_-12345", 1000);
    let parts: Vec<&str> = token.split('.').collect();
    let nonce = format!("nonce_-12346.{}.{}", parts[1], parts[2]);
    let stamp = format!("{}.3e9.{}", parts[0], parts[2]);
    let mut sig = parts[2].to_string();
    sig.replace_range(0..1, if sig.starts_with('A') { "B" } else { "A" });
    let signature = format!("{}.{}.{}", parts[0], parts[1], sig);
    for bad in [nonce, stamp, signature] {
        assert!(!validate_token_at("secret", 100, &bad, 1000));
        assert!(!validate_token_at("secret", 0, &bad, 1000));
    }
    assert!(!validate_token_at("secret", 0, &format!("{token}.x"), 1000));
    assert!(!validate_token_at("secret", 0, "a.b", 1000));
}

#[test]
fn csrf_missing_token_is_unauthorized() {
    let csrf = Csrf::new(&csrf_conf()).unwrap();
    let resp = csrf.handle("/submit", "POST", "").unwrap();
    assert_eq!(401, resp.status);
    assert_eq!("Csrf token is empty or invalid", resp.body);
    let resp = csrf.handle("/submit", "POST", "a.b.c").unwrap();
    assert_eq!(401, resp.status);
}

#[test]
fn csrf_valid_token_passes() {
    let csrf = Csrf::new(&csrf_conf()).unwrap();
    let token = generate_token("WjrXUG47wu");
    assert!(csrf.handle("/submit", "POST", &token).is_none());
    let old = generate_token_at("WjrXUG47wu", "abcdefghijkl", 1000);
    assert!(csrf.handle_at("/submit", "POST", &old, 1000 + 3600, "zzzzzzzzzzzz").is_none());
    assert!(csrf.handle_at("/submit", "POST", &old, 1000 + 3601, "zzzzzzzzzzzz").is_some());
}

#[test]
fn csrf_safe_methods_pass() {
    let csrf = Csrf::new(&csrf_conf()).unwrap();
    for method in ["GET", "HEAD", "OPTIONS"] {
        assert!(csrf.handle("/submit", method, "").is_none());
        assert!(csrf.handle("/submit", method, "junk").is_none());
    }
}

#[test]
fn csrf_mint_without_ttl() {
    let conf = PluginConf::new()
        .with_text("token_path", "/t")
        .with_text("key", "k")
        .with_text("name", "my-token");
    let csrf = Csrf::new(&conf).unwrap();
    assert_eq!("my-token", csrf.token_name());
    let resp = csrf.handle_at("/t", "POST", "", 16, "abcdefghijkl").unwrap();
    let expected = format!("my-token={}; Path=/", generate_token_at("k", "abcdefghijkl", 16));
    assert_eq!(expected, resp.headers[1].1);
}

#[test]
fn csrf_config_errors() {
    let message = |conf: PluginConf| match Csrf::new(&conf) {
        Err(PluginError::Invalid { category, message }) => {
            assert_eq!("csrf", category);
            message
        },
        Ok(_) => panic!("accepted"),
    };
    assert_eq!(
        "Token path is not allowed empty",
        message(PluginConf::new().with_text("key", "k"))
    );
    assert_eq!(
        "Key is not allowed empty",
        message(PluginConf::new().with_text("token_path", "/t"))
    );
    assert_eq!(
        "Csrf plugin should be executed at request or proxy upstream step",
        message(csrf_conf().with_text("step", "response"))
    );
    message(
        PluginConf::new()
            .with_text("token_path", "/t")
            .with_text("key", "k")
            .with_text("ttl", "forever"),
    );
    let csrf = Csrf::new(&csrf_conf().with_text("step", "proxy_upstream")).unwrap();
    assert_eq!(PluginStep::ProxyUpstream, csrf.step());
}

fn sign(key: &str, nonce: &str, stamp: &str) -> String {
    let digest = sha2::Sha256::digest(format!("{nonce}.{stamp}{key}").as_bytes());
    base64::engine::general_purpose::STANDARD.encode(digest)
}

#[test]
fn csrf_unreadable_stamp_fails() {
    let good = format!("ab.ff.{}", sign("k", "ab", "ff"));
    assert!(validate_token_at("k", 0, &good, 255));
    let bad = format!("ab.zz.{}", sign("k", "ab", "zz"));
    assert!(!validate_token_at("k", 0, &bad, 0));
    assert!(!validate_token_at("k", 1000, &bad, 10));
}

#[test]
fn csrf_signature_with_dot_fails() {
    let token = generate_token_at("secret", "nonce_-12345", 1000);
    assert!(!validate_token_at("secret", 0, &format!("{token}.x"), 1000));
    let parts: Vec<&str> = token.split('.').collect();
    let dotted = format!("{}.{}.{}.{}", parts[0], parts[1], &parts[2][..4], &parts[2][4..]);
    assert!(!validate_token_at("secret", 0, &dotted, 1000));
}

#[test]
fn csrf_bad_cookie_name_is_rejected() {
    let conf = PluginConf::new()
        .with_text("token_path", "/t")
        .with_text("key", "k")
        .with_text("name", "bad\u{1}name");
    let csrf = Csrf::new(&conf).unwrap();
    let resp = csrf.handle("/t", "GET", "").unwrap();
    assert_eq!(400, resp.status);
    assert_eq!("failed to parse header value", resp.body);
}

#[test]
fn csrf_long_ttl_accepted() {
    let conf = PluginConf::new()
        .with_text("token_path", "/t")
        .with_text("key", "k")
        .with_text("ttl", "100000000000ns");
    let csrf = Csrf::new(&conf).unwrap();
    let resp = csrf.handle("/t", "GET", "").unwrap();
    assert!(resp.headers[1].1.ends_with("Path=/; Max-Age=100"));
}
