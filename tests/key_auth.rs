use pingap::key_auth::{get_query_value, KeyAuth};
use pingap::plugin::{PluginError, PluginStep};

#[test]
fn key_auth_header() {
    let auth = KeyAuth::new("X-API-Key k1,k2", PluginStep::Request).unwrap();
    assert!(!auth.reads_query());
    assert_eq!("x-api-key", auth.credential_name());
    assert!(auth.handle("k2").is_none());
    assert!(auth.handle("k1").is_none());
    let resp = auth.handle("kx").unwrap();
    assert_eq!(401, resp.status);
    assert_eq!("Key auth fail", resp.body);
    let resp = auth.handle("").unwrap();
    assert_eq!(401, resp.status);
    assert_eq!("Key missing", resp.body);
}

#[test]
fn key_auth_query() {
    let auth = KeyAuth::new("?api_key k1", PluginStep::Request).unwrap();
    assert!(auth.reads_query());
    assert_eq!("api_key", auth.credential_name());
    assert!(auth.handle("k1").is_none());
    assert_eq!("Key auth fail", auth.handle("k2").unwrap().body);
}

#[test]
fn key_auth_invalid_specs() {
    for spec in ["X-API-Key", "X-API-Key k1 k2", "", "bad header k1"] {
        match KeyAuth::new(spec, PluginStep::Request) {
            Err(PluginError::Invalid { category, message }) => {
                assert_eq!("key_auth", category);
                assert_eq!("Value for key auth is invalid", message);
            },
            Ok(_) => panic!("accepted {spec:?}"),
        }
    }
    match KeyAuth::new("bad(name) k1", PluginStep::Request) {
        Err(PluginError::Invalid { message, .. }) => assert!(message.starts_with("invalid header name, ")),
        Ok(_) => panic!("accepted"),
    }
}

#[test]
fn query_value_lookup() {
    assert_eq!(Some("k1".to_string()), get_query_value("api_key=k1", "api_key"));
    assert_eq!(Some("b=c".to_string()), get_query_value("x=1&a=b=c&a=2", "a"));
    assert_eq!(Some("".to_string()), get_query_value("a=", "a"));
    assert_eq!(None, get_query_value("a&b=1", "a"));
    assert_eq!(None, get_query_value("", "a"));
    assert_eq!(None, get_query_value("apikey=1", "api_key"));
}

#[test]
fn key_auth_query_request() {
    let auth = KeyAuth::new("?api_key k1", PluginStep::Request).unwrap();
    let credential = get_query_value("api_key=k1", &auth.credential_name()).unwrap_or_default();
    assert!(auth.handle(&credential).is_none());
    let credential = get_query_value("other=k1", &auth.credential_name()).unwrap_or_default();
    assert_eq!("Key missing", auth.handle(&credential).unwrap().body);
}
