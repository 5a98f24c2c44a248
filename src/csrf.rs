//! CSRF protection: a token-minting endpoint, and verification of signed,
//! time-bounded tokens on unsafe methods.
//!
//! A token reads `<nonce>.<hex seconds>.<signature>`, where the signature is
//! the standard base64 of the SHA-256 digest of `<nonce>.<hex seconds>`
//! followed by the key.
use vstd::prelude::*;
use crate::outside::{
    base64_encode, base64_of, check_header_value, cookie_text, is_header_value_char, duration_of, is_base64_char, is_nanoid_char, now_secs,
    random_id, set_cookie_text, sha256_of, sha256_text,
};
use crate::duration::{duration_refused, read_duration};
use crate::plugin::{
    answer_view, HttpResponse, PluginCategory, PluginConf,
    PluginError, PluginStep, ResponseView,
};
use crate::text::{
    dec_of, dec_char, all_hex, hex_digit_value, hex_of, lemma_hex_of_digits, lemma_split_append, lemma_split_concat,
    lemma_split_no_sep, lemma_split_with_sep, parse_hex,
    parse_hex_spec, split_on, split_text, text_eq, to_hex,
};

verus! {

/// The signature of a nonce and a hexadecimal time stamp under `key`.
pub open spec fn signature_spec(key: Seq<char>, nonce: Seq<char>, stamp: Seq<char>) -> Seq<char> {
    base64_of(sha256_of(nonce + seq!['.'] + stamp + key))
}

/// The token minted with `nonce` at `now` seconds.
pub open spec fn token_spec(key: Seq<char>, nonce: Seq<char>, now: u64) -> Seq<char> {
    nonce + seq!['.'] + hex_of(now as nat) + seq!['.'] + signature_spec(key, nonce, hex_of(now as nat))
}

/// A token issued at `issued` is out of date at `now`: more than `ttl`
/// seconds have gone by, or it claims to come from the future.
pub open spec fn expired(now: u64, issued: u64, ttl: u64) -> bool {
    issued > now || now - issued > ttl
}

/// Whether `value` is a token that `key` signed, whose stamp is
/// hexadecimal and, with `ttl > 0`, at most `ttl` seconds old at `now`.
pub open spec fn token_valid(key: Seq<char>, ttl: u64, value: Seq<char>, now: u64) -> bool {
    let parts = split_on(value, '.');
    &&& parts.len() == 3
    &&& parse_hex_spec(parts[1]) is Some
    &&& (ttl == 0 || !expired(now, parse_hex_spec(parts[1])->0, ttl))
    &&& parts[2] == signature_spec(key, parts[0], parts[1])
}

/// A token minted at `now` is accepted exactly while it is in date: with
/// `ttl == 0` always, otherwise from `now` until `ttl` seconds later.
pub open spec fn valid_from(key: Seq<char>, token: Seq<char>, now: u64) -> bool {
    forall|ttl: u64, later: u64| #[trigger]
        token_valid(key, ttl, token, later) <==> (ttl == 0 || (now <= later && later - now <= ttl))
}

pub open spec fn nonce_ok(nonce: Seq<char>) -> bool {
    forall|i: int| 0 <= i < nonce.len() ==> is_nanoid_char(#[trigger] nonce[i])
}

pub open spec fn signature_ok(sig: Seq<char>) -> bool {
    forall|i: int| 0 <= i < sig.len() ==> is_base64_char(#[trigger] sig[i])
}

proof fn lemma_no_dot_nonce(nonce: Seq<char>)
    requires
        nonce_ok(nonce),
    ensures
        !nonce.contains('.'),
{
    if nonce.contains('.') {
        let k = choose|k: int| 0 <= k < nonce.len() && nonce[k] == '.';
        assert(is_nanoid_char(nonce[k]));
    }
}

proof fn lemma_no_dot_signature(sig: Seq<char>)
    requires
        signature_ok(sig),
    ensures
        !sig.contains('.'),
{
    if sig.contains('.') {
        let k = choose|k: int| 0 <= k < sig.len() && sig[k] == '.';
        assert(is_base64_char(sig[k]));
    }
}

/// The parts of a token are its nonce, its stamp and its signature.
pub proof fn lemma_token_parts(nonce: Seq<char>, stamp: Seq<char>, sig: Seq<char>)
    requires
        !nonce.contains('.'),
        !stamp.contains('.'),
        !sig.contains('.'),
    ensures
        split_on(nonce + seq!['.'] + stamp + seq!['.'] + sig, '.') == seq![nonce, stamp, sig],
{
    lemma_split_no_sep(nonce, '.');
    lemma_split_append(nonce, stamp, '.');
    lemma_split_append(nonce + seq!['.'] + stamp, sig, '.');
    assert(seq![nonce].push(stamp).push(sig) =~= seq![nonce, stamp, sig]);
}

/// A minted token is accepted exactly while it is in date: with `ttl == 0`
/// always, otherwise from the second it was minted until `ttl` seconds
/// later. This holds for every nonce of nanoid's alphabet and every
/// signature of the base64 alphabet.
pub proof fn lemma_token_round_trip(key: Seq<char>, nonce: Seq<char>, now: u64, later: u64, ttl: u64)
    requires
        nonce_ok(nonce),
        signature_ok(signature_spec(key, nonce, hex_of(now as nat))),
    ensures
        token_valid(key, ttl, token_spec(key, nonce, now), later) <==> (ttl == 0 || (now <= later
            && later - now <= ttl)),
{
    let stamp = hex_of(now as nat);
    let sig = signature_spec(key, nonce, stamp);
    lemma_no_dot_nonce(nonce);
    lemma_no_dot_signature(sig);
    lemma_hex_of_digits(now as nat);
    lemma_token_parts(nonce, stamp, sig);
    assert(parse_hex_spec(stamp) == Some(now));
}

/// A token is accepted only if its third part is the signature of its first
/// two under the key: replacing the signature by any other text makes the
/// token invalid.
pub proof fn lemma_signature_binding(
    key: Seq<char>,
    ttl: u64,
    nonce: Seq<char>,
    stamp: Seq<char>,
    sig: Seq<char>,
    now: u64,
)
    requires
        !nonce.contains('.'),
        !stamp.contains('.'),
        sig != signature_spec(key, nonce, stamp),
    ensures
        !token_valid(key, ttl, nonce + seq!['.'] + stamp + seq!['.'] + sig, now),
{
    if sig.contains('.') {
        let head = nonce + seq!['.'] + stamp;
        lemma_split_concat(head, sig, '.');
        lemma_split_append(nonce, stamp, '.');
        lemma_split_no_sep(nonce, '.');
        lemma_split_with_sep(sig, '.');
    } else {
        lemma_token_parts(nonce, stamp, sig);
    }
}

/// The signature of `nonce` and `stamp` under `key`.
fn signature(key: &str, nonce: &str, stamp: &str) -> (r: String)
    ensures
        r@ == signature_spec(key@, nonce@, stamp@),
        signature_ok(r@),
{
    proof {
        reveal_strlit(".");
    }
    let message = String::from_str(nonce).concat(".").concat(stamp).concat(key);
    assert(message@ =~= nonce@ + seq!['.'] + stamp@ + key@);
    let digest = sha256_text(message.as_str());
    base64_encode(digest.as_slice())
}

/// Mints the token for `nonce` at `now` seconds; for a nonce of nanoid's
/// alphabet, the token is then valid exactly while it is in date.
pub fn generate_token_at(key: &str, nonce: &str, now: u64) -> (r: String)
    ensures
        r@ == token_spec(key@, nonce@, now),
        nonce_ok(nonce@) ==> valid_from(key@, r@, now),
        nonce_ok(nonce@) ==> header_value_ok(r@),
{
    proof {
        reveal_strlit(".");
    }
    let stamp = to_hex(now);
    let sig = signature(key, nonce, stamp.as_str());
    let r = String::from_str(nonce).concat(".").concat(stamp.as_str()).concat(".").concat(
        sig.as_str(),
    );
    assert(r@ =~= token_spec(key@, nonce@, now));
    proof {
        if nonce_ok(nonce@) {
            lemma_token_ok(key@, nonce@, now);
            assert forall|ttl: u64, later: u64| #[trigger]
                token_valid(key@, ttl, r@, later) <==> (ttl == 0 || (now <= later && later - now
                    <= ttl)) by {
                lemma_token_round_trip(key@, nonce@, now, later, ttl);
            }
        }
    }
    r
}

/// Mints a token with a fresh 12-character nonce at the current time.
pub fn generate_token(key: &str) -> (r: String)
    ensures
        exists|nonce: Seq<char>, now: u64|
            nonce.len() == 12 && nonce_ok(nonce) && r@ == token_spec(key@, nonce, now) && valid_from(
                key@,
                r@,
                now,
            ),
{
    let nonce = random_id(12);
    let now = now_secs();
    let r = generate_token_at(key, nonce.as_str(), now);
    assert(nonce@.len() == 12 && nonce_ok(nonce@) && r@ == token_spec(key@, nonce@, now)
        && valid_from(key@, r@, now));
    r
}

/// Whether `value` is a valid token for `key` at `now` seconds.
pub fn validate_token_at(key: &str, ttl: u64, value: &str, now: u64) -> (r: bool)
    ensures
        r == token_valid(key@, ttl, value@, now),
{
    let parts = split_text(value, '.');
    assert(parts@.map_values(|p: String| p@).len() == parts@.len());
    if parts.len() != 3 {
        return false;
    }
    assert(parts@[0]@ == split_on(value@, '.')[0]);
    assert(parts@[1]@ == split_on(value@, '.')[1]);
    assert(parts@[2]@ == split_on(value@, '.')[2]);
    let issued = match parse_hex(parts[1].as_str()) {
        Some(v) => v,
        None => {
            return false;
        },
    };
    if ttl > 0 && (issued > now || now - issued > ttl) {
        return false;
    }
    let sig = signature(key, parts[0].as_str(), parts[1].as_str());
    sig == parts[2]
}

/// Whether `value` is a valid token for `key` at the current time.
pub fn validate_token(key: &str, ttl: u64, value: &str) -> (r: bool)
    ensures
        exists|now: u64| r == token_valid(key@, ttl, value@, now),
{
    let now = now_secs();
    validate_token_at(key, ttl, value, now)
}


/// The whole seconds of a duration text; zero where it is not one.
pub open spec fn duration_secs(t: Seq<char>) -> u64 {
    match duration_of(t) {
        Some(p) => p.0,
        None => 0,
    }
}

/// Whether http accepts a text as a header value.
pub open spec fn header_value_ok(s: Seq<char>) -> bool {
    forall|i: int| 0 <= i < s.len() ==> is_header_value_char(#[trigger] s[i])
}

proof fn lemma_header_ok_concat(a: Seq<char>, b: Seq<char>)
    requires
        header_value_ok(a),
        header_value_ok(b),
    ensures
        header_value_ok(a + b),
{
    assert forall|i: int| 0 <= i < (a + b).len() implies is_header_value_char(#[trigger] (a + b)[i]) by {
        if i < a.len() {
            assert((a + b)[i] == a[i]);
        } else {
            assert((a + b)[i] == b[i - a.len()]);
        }
    }
}

proof fn lemma_dec_ok(n: nat)
    ensures
        header_value_ok(dec_of(n)),
    decreases n,
{
    let d = dec_of(n);
    if n < 10 {
        assert(d =~= seq![dec_char(n)]);
    } else {
        lemma_dec_ok(n / 10);
        assert(d =~= dec_of(n / 10) + seq![dec_char(n % 10)]);
        lemma_header_ok_concat(dec_of(n / 10), seq![dec_char(n % 10)]);
    }
}

/// The fixed parts of a token cookie are header-value text.
proof fn lemma_cookie_literals()
    ensures
        header_value_ok("="@),
        header_value_ok("; Path="@),
        header_value_ok("/"@),
        header_value_ok("; Max-Age="@),
        header_value_ok(seq!['.']),
{
    reveal_strlit("=");
    reveal_strlit("; Path=");
    reveal_strlit("/");
    reveal_strlit("; Max-Age=");
    assert("="@ =~= seq!['=']);
    assert("/"@ =~= seq!['/']);
    assert("; Path="@ =~= seq![';', ' ', 'P', 'a', 't', 'h', '=']);
    assert("; Max-Age="@ =~= seq![';', ' ', 'M', 'a', 'x', '-', 'A', 'g', 'e', '=']);
}

/// A token cookie is header-value text when its name is.
proof fn lemma_cookie_ok(name: Seq<char>, token: Seq<char>, max_age: Option<u64>)
    requires
        header_value_ok(name),
        header_value_ok(token),
    ensures
        header_value_ok(cookie_text(name, token, "/"@, max_age)),
{
    lemma_cookie_literals();
    lemma_header_ok_concat(name, "="@);
    lemma_header_ok_concat(name + "="@, token);
    lemma_header_ok_concat(name + "="@ + token, "; Path="@);
    lemma_header_ok_concat(name + "="@ + token + "; Path="@, "/"@);
    let head = name + "="@ + token + "; Path="@ + "/"@;
    match max_age {
        Some(a) => {
            lemma_dec_ok(a as nat);
            lemma_header_ok_concat("; Max-Age="@, dec_of(a as nat));
            lemma_header_ok_concat(head, "; Max-Age="@ + dec_of(a as nat));
        },
        None => {
            assert(head + Seq::<char>::empty() =~= head);
        },
    }
}

/// A minted token is header-value text.
proof fn lemma_token_ok(key: Seq<char>, nonce: Seq<char>, now: u64)
    requires
        nonce_ok(nonce),
        signature_ok(signature_spec(key, nonce, hex_of(now as nat))),
    ensures
        header_value_ok(token_spec(key, nonce, now)),
{
    let stamp = hex_of(now as nat);
    let sig = signature_spec(key, nonce, stamp);
    lemma_hex_of_digits(now as nat);
    lemma_cookie_literals();
    assert(header_value_ok(nonce)) by {
        assert forall|i: int| 0 <= i < nonce.len() implies is_header_value_char(#[trigger] nonce[i]) by {
            assert(is_nanoid_char(nonce[i]));
        }
    }
    assert(header_value_ok(stamp)) by {
        assert forall|i: int| 0 <= i < stamp.len() implies is_header_value_char(#[trigger] stamp[i]) by {
            assert(hex_digit_value(stamp[i]) is Some);
        }
    }
    assert(header_value_ok(sig)) by {
        assert forall|i: int| 0 <= i < sig.len() implies is_header_value_char(#[trigger] sig[i]) by {
            assert(is_base64_char(sig[i]));
        }
    }
    lemma_header_ok_concat(nonce, seq!['.']);
    lemma_header_ok_concat(nonce + seq!['.'], stamp);
    lemma_header_ok_concat(nonce + seq!['.'] + stamp, seq!['.']);
    lemma_header_ok_concat(nonce + seq!['.'] + stamp + seq!['.'], sig);
}

/// Methods that never need a token.
pub open spec fn is_safe_method(method: Seq<char>) -> bool {
    method == "GET"@ || method == "HEAD"@ || method == "OPTIONS"@
}

/// The max age a token's cookie carries: none for tokens without a time
/// limit, else the time limit, capped at what cookie can write.
pub open spec fn cookie_max_age(ttl: u64) -> Option<u64> {
    if ttl == 0 {
        None
    } else if ttl <= i64::MAX {
        Some(ttl)
    } else {
        Some(i64::MAX as u64)
    }
}

pub open spec fn unauthorized_view() -> ResponseView {
    (401, Seq::empty(), "Csrf token is empty or invalid"@)
}

/// The CSRF plugin.
pub struct Csrf {
    plugin_step: PluginStep,
    token_path: String,
    key: String,
    name: String,
    ttl: u64,
}

impl Csrf {
    pub closed spec fn step_spec(&self) -> PluginStep {
        self.plugin_step
    }

    pub closed spec fn token_path_spec(&self) -> Seq<char> {
        self.token_path@
    }

    pub closed spec fn key_spec(&self) -> Seq<char> {
        self.key@
    }

    pub closed spec fn name_spec(&self) -> Seq<char> {
        self.name@
    }

    pub closed spec fn ttl_spec(&self) -> u64 {
        self.ttl
    }

    /// Whether the options are refused: a time limit that is not a
    /// duration, an empty token path or key, or a phase other than the
    /// request or proxy-upstream one.
    pub open spec fn conf_refused(conf: &PluginConf) -> bool {
        let ttl = conf.text_spec("ttl"@);
        ||| duration_refused(ttl)
        ||| conf.text_spec("token_path"@).len() == 0
        ||| conf.text_spec("key"@).len() == 0
        ||| !(conf.step_spec() == PluginStep::Request || conf.step_spec() == PluginStep::ProxyUpstream)
    }

    /// Builds the plugin from options `token_path`, `key`, `name` (default
    /// `x-csrf-token`), `ttl` and `step`.
    pub fn new(conf: &PluginConf) -> (r: Result<Csrf, PluginError>)
        ensures
            r is Err <==> Self::conf_refused(conf),
            r matches Err(e) ==> e.category_spec() == "csrf"@,
            r matches Err(e) ==> {
                let ttl = conf.text_spec("ttl"@);
                let ttl_ok = !duration_refused(ttl);
                let path = conf.text_spec("token_path"@);
                let key = conf.text_spec("key"@);
                &&& (ttl_ok && path.len() == 0 ==> e.message_spec()
                    == "Token path is not allowed empty"@)
                &&& (ttl_ok && path.len() > 0 && key.len() == 0 ==> e.message_spec()
                    == "Key is not allowed empty"@)
                &&& (ttl_ok && path.len() > 0 && key.len() > 0 ==> e.message_spec()
                    == "Csrf plugin should be executed at request or proxy upstream step"@)
            },
            r matches Ok(c) ==> {
                let ttl = conf.text_spec("ttl"@);
                let name = conf.text_spec("name"@);
                &&& c.step_spec() == conf.step_spec()
                &&& c.token_path_spec() == conf.text_spec("token_path"@)
                &&& c.key_spec() == conf.text_spec("key"@)
                &&& c.name_spec() == (if name.len() == 0 { "x-csrf-token"@ } else { name })
                &&& c.ttl_spec() == (if ttl.len() == 0 { 0 } else { duration_secs(ttl) })
            },
    {
        let plugin_step = conf.get_step();
        let mut name = conf.get_text("name");
        let token_path = conf.get_text("token_path");
        let key = conf.get_text("key");
        if name.as_str().unicode_len() == 0 {
            name = String::from_str("x-csrf-token");
        }
        let ttl_text = conf.get_text("ttl");
        let mut ttl: u64 = 0;
        if ttl_text.as_str().unicode_len() > 0 {
            match read_duration(ttl_text.as_str()) {
                Ok(d) => {
                    ttl = d.secs;
                },
                Err(e) => {
                    return Err(PluginError::invalid(PluginCategory::Csrf, e));
                },
            }
        }
        proof {
            reveal_strlit("csrf");
        }
        if token_path.as_str().unicode_len() == 0 {
            return Err(
                PluginError::invalid(
                    PluginCategory::Csrf,
                    String::from_str("Token path is not allowed empty"),
                ),
            );
        }
        if key.as_str().unicode_len() == 0 {
            return Err(
                PluginError::invalid(PluginCategory::Csrf, String::from_str("Key is not allowed empty")),
            );
        }
        if !(plugin_step == PluginStep::Request || plugin_step == PluginStep::ProxyUpstream) {
            return Err(
                PluginError::invalid(
                    PluginCategory::Csrf,
                    String::from_str("Csrf plugin should be executed at request or proxy upstream step"),
                ),
            );
        }
        Ok(Csrf { plugin_step, token_path, key, name, ttl })
    }

    /// The phase the plugin runs at.
    pub fn step(&self) -> (r: PluginStep)
        ensures
            r == self.step_spec(),
    {
        self.plugin_step
    }

    /// The plugin's category.
    pub fn category(&self) -> (r: PluginCategory)
        ensures
            r == PluginCategory::Csrf,
    {
        PluginCategory::Csrf
    }

    /// The name of the cookie and of the request header that carry the token.
    pub fn token_name(&self) -> (r: String)
        ensures
            r@ == self.name_spec(),
    {
        self.name.clone()
    }

    /// What the plugin answers to a request for `path` by `method` with the
    /// token header `token` (empty where absent), at `now` seconds, minting
    /// with `nonce` where it mints.
    pub open spec fn answer_spec(
        &self,
        path: Seq<char>,
        method: Seq<char>,
        token: Seq<char>,
        now: u64,
        nonce: Seq<char>,
    ) -> Option<ResponseView> {
        if path == self.token_path_spec() {
            let cookie = cookie_text(
                self.name_spec(),
                token_spec(self.key_spec(), nonce, now),
                "/"@,
                cookie_max_age(self.ttl_spec()),
            );
            if header_value_ok(cookie) {
                Some((204, seq![("Cache-Control"@, "no-store"@), ("Set-Cookie"@, cookie)], Seq::empty()))
            } else {
                Some((400, Seq::empty(), "failed to parse header value"@))
            }
        } else if is_safe_method(method) {
            None
        } else if token.len() == 0 || !token_valid(self.key_spec(), self.ttl_spec(), token, now) {
            Some(unauthorized_view())
        } else {
            None
        }
    }

    /// Whether a `204` answer sets a cookie whose token is valid from `now`
    /// on, for the plugin's key.
    pub open spec fn mint_valid(&self, answer: Option<ResponseView>, now: u64) -> bool {
        match answer {
            Some(v) => v.0 == 204 ==> exists|t: Seq<char>|
                v.1.len() == 2 && v.1[1].1 == cookie_text(
                    self.name_spec(),
                    t,
                    "/"@,
                    cookie_max_age(self.ttl_spec()),
                ) && #[trigger] valid_from(self.key_spec(), t, now),
            None => false,
        }
    }

    /// Answers a request at `now` seconds, minting with `nonce`.
    pub fn handle_at(&self, path: &str, method: &str, token: &str, now: u64, nonce: &str) -> (r:
        Option<HttpResponse>)
        ensures
            answer_view(r) == self.answer_spec(path@, method@, token@, now, nonce@),
            path@ == self.token_path_spec() && nonce_ok(nonce@) ==> self.mint_valid(
                answer_view(r),
                now,
            ),
            path@ == self.token_path_spec() && nonce_ok(nonce@) && header_value_ok(self.name_spec())
                ==> (r matches Some(resp) && resp.status == 204),
    {
        if text_eq(path, self.token_path.as_str()) {
            let value = generate_token_at(self.key.as_str(), nonce, now);
            let max_age: Option<u64> = if self.ttl == 0 {
                None
            } else if self.ttl <= i64::MAX as u64 {
                Some(self.ttl)
            } else {
                Some(i64::MAX as u64)
            };
            let cookie = set_cookie_text(self.name.as_str(), value.as_str(), "/", max_age);
            proof {
                if nonce_ok(nonce@) && header_value_ok(self.name_spec()) {
                    lemma_cookie_ok(self.name_spec(), value@, max_age);
                }
            }
            if let Err(e) = check_header_value(cookie.as_str()) {
                let resp = HttpResponse { status: 400, headers: Vec::new(), body: e };
                assert(resp.headers_spec() =~= Seq::empty());
                return Some(resp);
            }
            let mut headers: Vec<(String, String)> = Vec::new();
            headers.push((String::from_str("Cache-Control"), String::from_str("no-store")));
            headers.push((String::from_str("Set-Cookie"), cookie));
            let resp = HttpResponse { status: 204, headers, body: String::new() };
            assert(resp.headers_spec() =~= seq![
                ("Cache-Control"@, "no-store"@),
                (
                    "Set-Cookie"@,
                    cookie_text(
                        self.name_spec(),
                        token_spec(self.key_spec(), nonce@, now),
                        "/"@,
                        cookie_max_age(self.ttl_spec()),
                    ),
                ),
            ]);
            assert(resp.body@ =~= Seq::<char>::empty());
            proof {
                if nonce_ok(nonce@) {
                    let t = value@;
                    assert(valid_from(self.key_spec(), t, now));
                    assert(resp.view_parts().1[1].1 == cookie_text(
                        self.name_spec(),
                        t,
                        "/"@,
                        cookie_max_age(self.ttl_spec()),
                    ));
                }
            }
            return Some(resp);
        }
        if text_eq(method, "GET") || text_eq(method, "HEAD") || text_eq(method, "OPTIONS") {
            return None;
        }
        if token.unicode_len() == 0 || !validate_token_at(self.key.as_str(), self.ttl, token, now) {
            let resp = HttpResponse::text(401, "Csrf token is empty or invalid");
            assert(resp.headers_spec() =~= Seq::empty());
            return Some(resp);
        }
        None
    }

    /// Answers a request: on the token path, a `204` that sets a fresh token
    /// as a cookie; for safe methods, nothing; otherwise a `401` unless the
    /// token header holds a valid token.
    pub fn handle(&self, path: &str, method: &str, token: &str) -> (r: Option<HttpResponse>)
        ensures
            exists|now: u64, nonce: Seq<char>|
                nonce.len() == 12 && nonce_ok(nonce) && answer_view(r) == #[trigger] self.answer_spec(
                    path@,
                    method@,
                    token@,
                    now,
                    nonce,
                ) && (path@ == self.token_path_spec() ==> self.mint_valid(answer_view(r), now)),
            path@ != self.token_path_spec() && is_safe_method(method@) ==> r is None,
            path@ == self.token_path_spec() && header_value_ok(self.name_spec()) ==> (r matches Some(
                resp,
            ) && resp.status == 204),
    {
        let nonce = random_id(12);
        let now = now_secs();
        let r = self.handle_at(path, method, token, now, nonce.as_str());
        assert(nonce@.len() == 12 && nonce_ok(nonce@) && answer_view(r) == self.answer_spec(
            path@,
            method@,
            token@,
            now,
            nonce@,
        ) && (path@ == self.token_path_spec() ==> self.mint_valid(answer_view(r), now)));
        r
    }
}

} // verus!
