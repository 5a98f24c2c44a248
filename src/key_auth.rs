//! Key authentication: a credential read from a request header or a query
//! parameter must be one of a fixed set of keys.
use vstd::prelude::*;
use crate::outside::{char_substring, header_name_of, parse_header_name};
use crate::plugin::{
    answer_view, texts_view, HttpResponse, PluginCategory, PluginError, PluginStep, ResponseView,
};
use crate::text::{split_on, split_text, text_eq};

verus! {

/// Where the credential is read: a query parameter (`true`) or a header
/// (`false`), and its name.
pub type LocatorView = (bool, Seq<char>);

/// Where a locator text points: `?name` is the query parameter `name`;
/// any other text is a header name, if http accepts it.
pub open spec fn locator_of(name: Seq<char>) -> Option<LocatorView> {
    if name.len() > 0 && name[0] == '?' {
        Some((true, name.drop_first()))
    } else {
        match header_name_of(name) {
            Some(h) => Some((false, h)),
            None => None,
        }
    }
}

/// The answer when no credential is given.
pub open spec fn missing_view() -> ResponseView {
    (401, Seq::empty(), "Key missing"@)
}

/// The answer when the credential is not a known key.
pub open spec fn failed_view() -> ResponseView {
    (401, Seq::empty(), "Key auth fail"@)
}

/// The key authentication plugin.
pub struct KeyAuth {
    proxy_step: PluginStep,
    query: bool,
    name: String,
    keys: Vec<String>,
}

impl KeyAuth {
    pub closed spec fn step_spec(&self) -> PluginStep {
        self.proxy_step
    }

    pub closed spec fn locator_spec(&self) -> LocatorView {
        (self.query, self.name@)
    }

    pub closed spec fn keys_spec(&self) -> Seq<Seq<char>> {
        texts_view(self.keys@)
    }

    /// Whether a specification text is refused: it is not two words
    /// separated by one space, or its first word is neither `?name` nor a
    /// header name.
    pub open spec fn spec_refused(value: Seq<char>) -> bool {
        let parts = split_on(value, ' ');
        parts.len() != 2 || locator_of(parts[0]) is None
    }

    /// Builds the plugin from `"<locator> <key>,<key>,..."`.
    pub fn new(value: &str, proxy_step: PluginStep) -> (r: Result<KeyAuth, PluginError>)
        ensures
            r is Err <==> Self::spec_refused(value@),
            r matches Err(e) ==> e.category_spec() == "key_auth"@ && (split_on(value@, ' ').len()
                != 2 ==> e.message_spec() == "Value for key auth is invalid"@) && (split_on(
                value@,
                ' ',
            ).len() == 2 ==> "invalid header name, "@.is_prefix_of(e.message_spec())),
            r matches Ok(k) ==> {
                let parts = split_on(value@, ' ');
                &&& k.step_spec() == proxy_step
                &&& k.locator_spec() == locator_of(parts[0])->0
                &&& k.keys_spec() == split_on(parts[1], ',')
            },
    {
        proof {
            reveal_strlit("key_auth");
        }
        let parts = split_text(value, ' ');
        assert(parts@.map_values(|p: String| p@).len() == parts@.len());
        if parts.len() != 2 {
            return Err(
                PluginError::invalid(
                    PluginCategory::KeyAuth,
                    String::from_str("Value for key auth is invalid"),
                ),
            );
        }
        assert(parts@[0]@ == split_on(value@, ' ')[0]);
        assert(parts@[1]@ == split_on(value@, ' ')[1]);
        let locator = parts[0].as_str();
        let n = locator.unicode_len();
        let query = n > 0 && locator.get_char(0) == '?';
        let name = if query {
            let q = char_substring(locator, 1, n);
            assert(q@ =~= locator@.drop_first());
            q
        } else {
            match parse_header_name(locator) {
                Ok(h) => h,
                Err(e) => {
                    let message = String::from_str("invalid header name, ").concat(e.as_str());
                    assert("invalid header name, "@.is_prefix_of(message@)) by {
                        assert(message@.subrange(0, "invalid header name, "@.len() as int)
                            =~= "invalid header name, "@);
                    }
                    return Err(PluginError::invalid(PluginCategory::KeyAuth, message));
                },
            }
        };
        let keys = split_text(parts[1].as_str(), ',');
        assert(texts_view(keys@) =~= keys@.map_values(|p: String| p@));
        Ok(KeyAuth { proxy_step, query, name, keys })
    }

    /// The phase the plugin runs at.
    pub fn step(&self) -> (r: PluginStep)
        ensures
            r == self.step_spec(),
    {
        self.proxy_step
    }

    /// The plugin's category.
    pub fn category(&self) -> (r: PluginCategory)
        ensures
            r == PluginCategory::KeyAuth,
    {
        PluginCategory::KeyAuth
    }

    /// Whether the credential is a query parameter rather than a header.
    pub fn reads_query(&self) -> (r: bool)
        ensures
            r == self.locator_spec().0,
    {
        self.query
    }

    /// The name of the query parameter or header that holds the credential.
    pub fn credential_name(&self) -> (r: String)
        ensures
            r@ == self.locator_spec().1,
    {
        self.name.clone()
    }

    /// What the plugin answers for a credential (empty where absent).
    pub open spec fn answer_spec(&self, credential: Seq<char>) -> Option<ResponseView> {
        if credential.len() == 0 {
            Some(missing_view())
        } else if !self.keys_spec().contains(credential) {
            Some(failed_view())
        } else {
            None
        }
    }

    /// Answers a request: `401 Key missing` without a credential, `401 Key
    /// auth fail` for an unknown one, nothing for a known key.
    pub fn handle(&self, credential: &str) -> (r: Option<HttpResponse>)
        ensures
            answer_view(r) == self.answer_spec(credential@),
    {
        if credential.unicode_len() == 0 {
            let resp = HttpResponse::text(401, "Key missing");
            assert(resp.headers_spec() =~= Seq::empty());
            return Some(resp);
        }
        let given = String::from_str(credential);
        let mut i: usize = 0;
        while i < self.keys.len()
            invariant
                i <= self.keys@.len(),
                given@ == credential@,
                credential@.len() > 0,
                forall|j: int| 0 <= j < i ==> self.keys@[j]@ != credential@,
            decreases self.keys@.len() - i,
        {
            if self.keys[i] == given {
                assert(self.keys_spec()[i as int] == credential@);
                assert(self.keys_spec().contains(credential@));
                return None;
            }
            i += 1;
        }
        assert(!self.keys_spec().contains(credential@)) by {
            if self.keys_spec().contains(credential@) {
                let j = choose|j: int| 0 <= j < self.keys_spec().len() && self.keys_spec()[j]
                    == credential@;
                assert(self.keys@[j]@ == credential@);
            }
        }
        let resp = HttpResponse::text(401, "Key auth fail");
        assert(resp.headers_spec() =~= Seq::empty());
        Some(resp)
    }
}


/// The position of the first `c` in `s` at or after `i`.
pub open spec fn first_index_from(s: Seq<char>, c: char, i: int) -> Option<int>
    decreases s.len() - i,
{
    if i < 0 || i >= s.len() {
        None
    } else if s[i] == c {
        Some(i)
    } else {
        first_index_from(s, c, i + 1)
    }
}

/// The value of query parameter `name` in one `key=value` item: the text
/// after the first `=` where the text before it is `name`.
pub open spec fn item_value(item: Seq<char>, name: Seq<char>) -> Option<Seq<char>> {
    match first_index_from(item, '=', 0) {
        Some(j) => if item.subrange(0, j) == name {
            Some(item.subrange(j + 1, item.len() as int))
        } else {
            None
        },
        None => None,
    }
}

/// The value of query parameter `name` among the `&`-separated items at or
/// after position `i`: that of the first item that sets it.
pub open spec fn query_value_from(items: Seq<Seq<char>>, name: Seq<char>, i: int) -> Option<Seq<char>>
    decreases items.len() - i,
{
    if i < 0 || i >= items.len() {
        None
    } else {
        match item_value(items[i], name) {
            Some(v) => Some(v),
            None => query_value_from(items, name, i + 1),
        }
    }
}

/// The value of query parameter `name` in a query string.
pub open spec fn query_value_spec(query: Seq<char>, name: Seq<char>) -> Option<Seq<char>> {
    query_value_from(split_on(query, '&'), name, 0)
}

fn item_value_of(item: &str, name: &str) -> (r: Option<String>)
    ensures
        r is Some <==> item_value(item@, name@) is Some,
        r matches Some(v) ==> v@ == item_value(item@, name@)->0,
{
    let n = item.unicode_len();
    let mut i: usize = 0;
    while i < n
        invariant
            i <= n,
            n == item@.len(),
            first_index_from(item@, '=', 0) == first_index_from(item@, '=', i as int),
        decreases n - i,
    {
        if item.get_char(i) == '=' {
            let key = item.substring_char(0, i);
            if text_eq(key, name) {
                return Some(item.substring_char(i + 1, n).to_string());
            }
            return None;
        }
        i += 1;
    }
    None
}

/// The value of query parameter `name` in `query` (the part of the URI
/// after `?`): the text after the first `=` of the first `&`-separated item
/// whose text before it is `name`.
pub fn get_query_value(query: &str, name: &str) -> (r: Option<String>)
    ensures
        r is Some <==> query_value_spec(query@, name@) is Some,
        r matches Some(v) ==> v@ == query_value_spec(query@, name@)->0,
{
    let items = split_text(query, '&');
    let ghost iv = items@.map_values(|p: String| p@);
    let mut i: usize = 0;
    while i < items.len()
        invariant
            i <= items@.len(),
            iv == items@.map_values(|p: String| p@),
            iv == split_on(query@, '&'),
            query_value_spec(query@, name@) == query_value_from(iv, name@, i as int),
        decreases items@.len() - i,
    {
        assert(iv[i as int] == items@[i as int]@);
        match item_value_of(items[i].as_str(), name) {
            Some(v) => {
                return Some(v);
            },
            None => {},
        }
        i += 1;
    }
    None
}

} // verus!
