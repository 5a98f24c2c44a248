//! The calls this library makes into other crates, each with the contract
//! it is trusted to meet.
use vstd::prelude::*;
use base64::Engine;
use sha2::Digest;
use std::str::FromStr;
use substring::Substring;
use crate::plugin::Span;
use crate::duration::{duration_bound, DURATION_LIMIT_NS};
use crate::text::dec_of;

verus! {

#[verifier::external_type_specification]
#[verifier::external_body]
#[verifier::reject_recursive_types(T)]
pub struct ExOnceCell<T>(once_cell::sync::OnceCell<T>);

/// What a once-cell of text holds: nothing, or the text it was set to.
pub uninterp spec fn once_text(c: once_cell::sync::OnceCell<String>) -> Option<Seq<char>>;

/// Relies on `once_cell::sync::OnceCell::new`: a new cell is empty.
#[verifier::external_body]
pub(crate) fn once_new() -> (r: once_cell::sync::OnceCell<String>)
    ensures
        once_text(r) is None,
{
    once_cell::sync::OnceCell::new()
}

/// Relies on `once_cell::sync::OnceCell::get`: the value the cell holds, if any.
#[verifier::external_body]
pub(crate) fn once_get(c: &once_cell::sync::OnceCell<String>) -> (r: Option<String>)
    ensures
        r is Some <==> once_text(*c) is Some,
        r is Some ==> r->0@ == once_text(*c)->0,
{
    c.get().cloned()
}

/// Relies on `once_cell::sync::OnceCell::set`: an empty cell takes the value,
/// a full one keeps what it holds.
#[verifier::external_body]
pub(crate) fn once_set(c: &mut once_cell::sync::OnceCell<String>, v: String)
    ensures
        once_text(*final(c)) == (if once_text(*old(c)) is None {
            Some(v@)
        } else {
            once_text(*old(c))
        }),
{
    let _ = c.set(v);
}


/// What `humantime::parse_duration` makes of a text, as whole seconds and
/// the nanoseconds beyond them.
pub uninterp spec fn duration_of(s: Seq<char>) -> Option<(u64, u32)>;

/// Relies on `humantime::parse_duration`: the outcome depends on the text
/// alone, and a duration keeps its nanoseconds below one second.
/// It panics only when a span brings the seconds to `u64::MAX` while the
/// nanoseconds reach one second (duration.rs, `add_current`), i.e. when the
/// total passes the largest `Duration`. Each span adds at most its integer
/// part in its unit, plus less than one unit for a fraction, which is what
/// `duration_bound` sums: under the limit it cannot panic.
#[verifier::external_body]
pub(crate) fn parse_duration(s: &str) -> (r: Result<Span, String>)
    requires
        duration_bound(s@) < DURATION_LIMIT_NS,
    ensures
        r is Ok <==> duration_of(s@) is Some,
        r matches Ok(d) ==> (d.secs, d.nanos) == duration_of(s@)->0 && d.nanos < 1_000_000_000,
{
    humantime::parse_duration(s)
        .map(|d| Span { secs: d.as_secs(), nanos: d.subsec_nanos() })
        .map_err(|e| e.to_string())
}

/// What `bytesize::ByteSize::from_str` makes of a text, in bytes.
pub uninterp spec fn byte_size_of(s: Seq<char>) -> Option<u64>;

/// Relies on `<bytesize::ByteSize as FromStr>::from_str`: the outcome depends
/// on the text alone.
#[verifier::external_body]
pub(crate) fn parse_byte_size(s: &str) -> (r: Result<u64, String>)
    ensures
        r is Ok <==> byte_size_of(s@) is Some,
        r matches Ok(n) ==> n == byte_size_of(s@)->0,
{
    bytesize::ByteSize::from_str(s).map(|b| b.as_u64())
}

/// A character http accepts in a header name: a token character.
pub open spec fn is_token_char(c: char) -> bool {
    ('a' <= c && c <= 'z') || ('A' <= c && c <= 'Z') || ('0' <= c && c <= '9') || c == '!' || c
        == '#' || c == '$' || c == '%' || c == '&' || c == '\'' || c == '*' || c == '+' || c == '-'
        || c == '.' || c == '^' || c == '_' || c == '`' || c == '|' || c == '~'
}

/// The ASCII lower-case form of a character.
pub open spec fn ascii_lower(c: char) -> char {
    if 'A' <= c && c <= 'Z' {
        ((c as u32) + 32) as char
    } else {
        c
    }
}

/// The header name http makes of a text: for 1 to 65535 token characters,
/// their lower-case form; otherwise none.
pub open spec fn header_name_of(s: Seq<char>) -> Option<Seq<char>> {
    if 1 <= s.len() <= 65535 && forall|i: int| 0 <= i < s.len() ==> is_token_char(#[trigger] s[i]) {
        Some(s.map_values(|c: char| ascii_lower(c)))
    } else {
        None
    }
}

/// Relies on `<http::HeaderName as FromStr>::from_str` and
/// `HeaderName::as_str`: a name is accepted when it has 1 to 65535 bytes,
/// each mapped to a non-zero entry of `HEADER_CHARS` (the token characters,
/// all ASCII, so bytes and characters agree); the table maps each to its
/// lower-case form, which `as_str` gives back.
#[verifier::external_body]
pub(crate) fn parse_header_name(s: &str) -> (r: Result<String, String>)
    ensures
        r is Ok <==> header_name_of(s@) is Some,
        r matches Ok(n) ==> n@ == header_name_of(s@)->0,
{
    http::HeaderName::from_str(s).map(|h| h.as_str().to_string()).map_err(|e| e.to_string())
}

/// Relies on `substring::Substring::substring`: the characters from index
/// `start` up to `end`, both clamped to the length; empty when `end <= start`.
#[verifier::external_body]
pub(crate) fn char_substring(s: &str, start: usize, end: usize) -> (r: String)
    ensures
        r@ == (if end <= start {
            Seq::<char>::empty()
        } else {
            s@.subrange(
                if start <= s@.len() { start as int } else { s@.len() as int },
                if end <= s@.len() { end as int } else { s@.len() as int },
            )
        }),
{
    s.substring(start, end).to_string()
}

/// The SHA-256 digest of the UTF-8 bytes of a text.
pub uninterp spec fn sha256_of(s: Seq<char>) -> Seq<u8>;

/// Relies on `sha2::Sha256::digest`: 32 bytes that depend on the input alone.
#[verifier::external_body]
pub(crate) fn sha256_text(s: &str) -> (r: Vec<u8>)
    ensures
        r@ == sha256_of(s@),
        r@.len() == 32,
{
    sha2::Sha256::digest(s.as_bytes()).to_vec()
}

/// A character of the standard base64 alphabet, or its padding.
pub open spec fn is_base64_char(c: char) -> bool {
    ('A' <= c && c <= 'Z') || ('a' <= c && c <= 'z') || ('0' <= c && c <= '9') || c == '+'
        || c == '/' || c == '='
}

/// The standard, padded base64 encoding of some bytes.
pub uninterp spec fn base64_of(b: Seq<u8>) -> Seq<char>;

/// Relies on `base64::engine::general_purpose::STANDARD.encode`: the output
/// depends on the input alone and uses the standard alphabet and `=`.
#[verifier::external_body]
pub(crate) fn base64_encode(b: &[u8]) -> (r: String)
    ensures
        r@ == base64_of(b@),
        forall|i: int| 0 <= i < r@.len() ==> is_base64_char(#[trigger] r@[i]),
{
    base64::engine::general_purpose::STANDARD.encode(b)
}

/// A character of nanoid's URL-safe alphabet.
pub open spec fn is_nanoid_char(c: char) -> bool {
    ('A' <= c && c <= 'Z') || ('a' <= c && c <= 'z') || ('0' <= c && c <= '9') || c == '_'
        || c == '-'
}

/// Relies on `nanoid::format` with the OS-seeded generator and the URL-safe
/// alphabet: `size` random characters of that alphabet. It does not return
/// for a size of zero.
#[verifier::external_body]
pub(crate) fn random_id(size: usize) -> (r: String)
    requires
        size > 0,
    ensures
        r@.len() == size,
        forall|i: int| 0 <= i < r@.len() ==> is_nanoid_char(#[trigger] r@[i]),
{
    nanoid::format(nanoid::rngs::default, &nanoid::alphabet::SAFE, size)
}

/// Relies on `std::time::SystemTime::now`: whole seconds since the Unix
/// epoch; nothing is known of the value.
#[verifier::external_body]
pub(crate) fn now_secs() -> (r: u64) {
    std::time::SystemTime::now().duration_since(std::time::UNIX_EPOCH).map(|d| d.as_secs()).unwrap_or(0)
}

/// A `Set-Cookie` value as cookie writes one with a path and an optional
/// max age.
pub open spec fn cookie_text(name: Seq<char>, value: Seq<char>, path: Seq<char>, max_age: Option<u64>) -> Seq<char> {
    name + "="@ + value + "; Path="@ + path + match max_age {
        Some(a) => "; Max-Age="@ + dec_of(a as nat),
        None => Seq::<char>::empty(),
    }
}

/// Relies on `cookie::Cookie::build(..).path(..)`, `Cookie::set_max_age` and
/// `Cookie`'s `Display`, which writes `name=value` unencoded, then
/// `; Path=` and the path, then `; Max-Age=` and the whole seconds when a
/// max age is set.
#[verifier::external_body]
pub(crate) fn set_cookie_text(name: &str, value: &str, path: &str, max_age: Option<u64>) -> (r: String)
    requires
        max_age matches Some(a) ==> a <= i64::MAX,
    ensures
        r@ == cookie_text(name@, value@, path@, max_age),
{
    let mut c = cookie::Cookie::build((name, value)).path(path).build();
    c.set_max_age(max_age.map(|a| cookie::time::Duration::seconds(a as i64)));
    c.to_string()
}

/// A character whose UTF-8 bytes http accepts in a header value: a tab, or
/// anything from the space on but DEL (non-ASCII characters are encoded in
/// bytes of 128 and above, all accepted).
pub open spec fn is_header_value_char(c: char) -> bool {
    (' ' <= c && c != '\x7f') || c == '\t'
}

/// Relies on `http::HeaderValue::from_str`: it accepts a text exactly when
/// every byte is a tab or lies in 32..=255 but is not 127, and its error
/// displays as `failed to parse header value`.
#[verifier::external_body]
pub(crate) fn check_header_value(s: &str) -> (r: Result<(), String>)
    ensures
        r is Ok <==> forall|i: int| 0 <= i < s@.len() ==> is_header_value_char(#[trigger] s@[i]),
        r matches Err(e) ==> e@ == "failed to parse header value"@,
{
    http::HeaderValue::from_str(s).map(|_| ()).map_err(|e| e.to_string())
}

} // verus!
