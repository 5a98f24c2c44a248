//! What all plugins share: the lifecycle phases, the error of construction,
//! the synthetic response a plugin may answer with, and the configuration
//! mapping plugins are built from.
use vstd::prelude::*;

verus! {

/// A point in the request lifecycle at which a plugin runs.
#[derive(PartialEq, Eq, Structural, Clone, Copy, Debug)]
pub enum PluginStep {
    Request,
    ProxyUpstream,
    Response,
}

/// The kind of a plugin, for diagnostics.
#[derive(PartialEq, Eq, Structural, Clone, Copy, Debug)]
pub enum PluginCategory {
    Cache,
    Csrf,
    KeyAuth,
}

impl PluginCategory {
    pub open spec fn name_spec(self) -> Seq<char> {
        match self {
            PluginCategory::Cache => "cache"@,
            PluginCategory::Csrf => "csrf"@,
            PluginCategory::KeyAuth => "key_auth"@,
        }
    }

    /// The category's name.
    pub fn name(&self) -> (r: String)
        ensures
            r@ == self.name_spec(),
    {
        match self {
            PluginCategory::Cache => String::from_str("cache"),
            PluginCategory::Csrf => String::from_str("csrf"),
            PluginCategory::KeyAuth => String::from_str("key_auth"),
        }
    }
}

/// Why a plugin could not be built from its configuration.
#[derive(Debug)]
pub enum PluginError {
    Invalid { category: String, message: String },
}

impl PluginError {
    pub open spec fn category_spec(&self) -> Seq<char> {
        match self {
            PluginError::Invalid { category, .. } => category@,
        }
    }

    pub open spec fn message_spec(&self) -> Seq<char> {
        match self {
            PluginError::Invalid { message, .. } => message@,
        }
    }

    /// An error of the given category with the given message.
    pub fn invalid(category: PluginCategory, message: String) -> (r: PluginError)
        ensures
            r.category_spec() == category.name_spec(),
            r.message_spec() == message@,
    {
        PluginError::Invalid { category: category.name(), message }
    }

    /// The message, for reports.
    pub fn message(&self) -> (r: String)
        ensures
            r@ == self.message_spec(),
    {
        match self {
            PluginError::Invalid { message, .. } => message.clone(),
        }
    }
}

/// A length of time: whole seconds, and the nanoseconds beyond them.
#[derive(PartialEq, Eq, Structural, Clone, Copy, Debug)]
pub struct Span {
    pub secs: u64,
    pub nanos: u32,
}

/// A response a plugin answers with in place of the upstream.
#[derive(Debug)]
pub struct HttpResponse {
    pub status: u16,
    pub headers: Vec<(String, String)>,
    pub body: String,
}

impl HttpResponse {
    /// The headers as text pairs.
    pub open spec fn headers_spec(&self) -> Seq<(Seq<char>, Seq<char>)> {
        self.headers@.map_values(|h: (String, String)| (h.0@, h.1@))
    }

    /// The status, the headers and the body as plain values.
    pub open spec fn view_parts(&self) -> ResponseView {
        (self.status, self.headers_spec(), self.body@)
    }

    /// A response with a status, a plain-text body and no headers.
    pub fn text(status: u16, body: &str) -> (r: HttpResponse)
        ensures
            r.status == status,
            r.body@ == body@,
            r.headers@.len() == 0,
    {
        HttpResponse { status, headers: Vec::new(), body: body.to_string() }
    }
}

/// A response as plain values: status, headers, body.
pub type ResponseView = (u16, Seq<(Seq<char>, Seq<char>)>, Seq<char>);

/// What a plugin answers, as plain values.
pub open spec fn answer_view(r: Option<HttpResponse>) -> Option<ResponseView> {
    match r {
        Some(x) => Some(x.view_parts()),
        None => None,
    }
}

/// One option of a plugin's configuration: its key, its text value (empty
/// where it has none), and its list value (empty where it has none).
pub struct ConfEntry {
    key: String,
    text: String,
    items: Vec<String>,
}

/// The configuration of one plugin: options by key; where a key occurs twice
/// the first occurrence counts.
pub struct PluginConf {
    entries: Vec<ConfEntry>,
}

/// An option as plain text.
pub type ConfEntryView = (Seq<char>, Seq<char>, Seq<Seq<char>>);

pub open spec fn texts_view(v: Seq<String>) -> Seq<Seq<char>> {
    v.map_values(|t: String| t@)
}

/// The position of the first option at or after `i` with key `key`.
pub open spec fn index_from(es: Seq<ConfEntryView>, key: Seq<char>, i: int) -> Option<int>
    decreases es.len() - i,
{
    if i < 0 || i >= es.len() {
        None
    } else if es[i].0 == key {
        Some(i)
    } else {
        index_from(es, key, i + 1)
    }
}

/// A copy of a list of texts.
pub fn copy_texts(v: &Vec<String>) -> (r: Vec<String>)
    ensures
        r@ == v@,
{
    let mut r: Vec<String> = Vec::new();
    let mut i: usize = 0;
    while i < v.len()
        invariant
            i <= v@.len(),
            r@ == v@.subrange(0, i as int),
        decreases v@.len() - i,
    {
        r.push(v[i].clone());
        assert(r@ =~= v@.subrange(0, i + 1));
        i += 1;
    }
    assert(r@ =~= v@);
    r
}

/// A list value as text: each item preceded by a comma.
pub open spec fn items_text(items: Seq<Seq<char>>) -> Seq<char>
    decreases items.len(),
{
    if items.len() == 0 {
        Seq::empty()
    } else {
        items_text(items.drop_last()) + seq![','] + items.last()
    }
}

/// An option as text: `key=text`, its list, and a line break.
pub open spec fn entry_text(e: ConfEntryView) -> Seq<char> {
    e.0 + seq!['='] + e.1 + items_text(e.2) + seq!['\n']
}

/// A configuration as text: its options in order.
pub open spec fn conf_text(es: Seq<ConfEntryView>) -> Seq<char>
    decreases es.len(),
{
    if es.len() == 0 {
        Seq::empty()
    } else {
        conf_text(es.drop_last()) + entry_text(es.last())
    }
}

impl PluginConf {
    pub closed spec fn view_entries(&self) -> Seq<ConfEntryView> {
        self.entries@.map_values(|e: ConfEntry| (e.key@, e.text@, texts_view(e.items@)))
    }

    /// Whether the option `key` is set.
    pub open spec fn has_spec(&self, key: Seq<char>) -> bool {
        index_from(self.view_entries(), key, 0) is Some
    }

    /// The text of option `key`, empty where it is not set.
    pub open spec fn text_spec(&self, key: Seq<char>) -> Seq<char> {
        match index_from(self.view_entries(), key, 0) {
            Some(j) => self.view_entries()[j].1,
            None => Seq::<char>::empty(),
        }
    }

    /// The list of option `key`, empty where it is not set.
    pub open spec fn items_spec(&self, key: Seq<char>) -> Seq<Seq<char>> {
        match index_from(self.view_entries(), key, 0) {
            Some(j) => self.view_entries()[j].2,
            None => Seq::<Seq<char>>::empty(),
        }
    }

    /// The phase the configuration asks for: `proxy_upstream` or `response`
    /// where option `step` says so, the request phase otherwise.
    pub open spec fn step_spec(&self) -> PluginStep {
        let t = self.text_spec("step"@);
        if t == "proxy_upstream"@ {
            PluginStep::ProxyUpstream
        } else if t == "response"@ {
            PluginStep::Response
        } else {
            PluginStep::Request
        }
    }

    /// A configuration with no option set.
    pub fn new() -> (r: PluginConf)
        ensures
            r.view_entries().len() == 0,
    {
        PluginConf { entries: Vec::new() }
    }

    /// Adds option `key` with a text value.
    pub fn with_text(self, key: &str, value: &str) -> (r: PluginConf)
        ensures
            r.view_entries() == self.view_entries().push((key@, value@, Seq::<Seq<char>>::empty())),
    {
        let mut entries = self.entries;
        entries.push(ConfEntry { key: key.to_string(), text: value.to_string(), items: Vec::new() });
        let r = PluginConf { entries };
        assert(texts_view(Seq::<String>::empty()) =~= Seq::<Seq<char>>::empty());
        assert(r.view_entries() =~= self.view_entries().push((key@, value@, Seq::<Seq<char>>::empty())));
        r
    }

    /// Adds option `key` as a switch, with the text `true`.
    pub fn with_flag(self, key: &str) -> (r: PluginConf)
        ensures
            r.view_entries() == self.view_entries().push((key@, "true"@, Seq::<Seq<char>>::empty())),
    {
        self.with_text(key, "true")
    }

    /// Adds option `key` with a list value.
    pub fn with_list(self, key: &str, items: Vec<String>) -> (r: PluginConf)
        ensures
            r.view_entries() == self.view_entries().push((key@, Seq::<char>::empty(), texts_view(items@))),
    {
        let mut entries = self.entries;
        entries.push(ConfEntry { key: key.to_string(), text: String::new(), items });
        let r = PluginConf { entries };
        assert(r.view_entries() =~= self.view_entries().push((key@, Seq::<char>::empty(), texts_view(items@))));
        r
    }

    fn find(&self, key: &str) -> (r: Option<usize>)
        ensures
            r matches Some(j) ==> index_from(self.view_entries(), key@, 0) == Some(j as int),
            r is None ==> index_from(self.view_entries(), key@, 0) is None,
            r matches Some(j) ==> j < self.entries@.len(),
    {
        let k = key.to_string();
        let mut i: usize = 0;
        while i < self.entries.len()
            invariant
                i <= self.entries@.len(),
                k@ == key@,
                index_from(self.view_entries(), key@, 0) == index_from(self.view_entries(), key@, i as int),
            decreases self.entries@.len() - i,
        {
            if self.entries[i].key == k {
                return Some(i);
            }
            i += 1;
        }
        None
    }

    /// Whether option `key` is set.
    pub fn contains_key(&self, key: &str) -> (r: bool)
        ensures
            r == self.has_spec(key@),
    {
        self.find(key).is_some()
    }

    /// The text of option `key`, empty where it is not set.
    pub fn get_text(&self, key: &str) -> (r: String)
        ensures
            r@ == self.text_spec(key@),
    {
        match self.find(key) {
            Some(j) => self.entries[j].text.clone(),
            None => String::new(),
        }
    }

    /// The list of option `key`, empty where it is not set.
    pub fn get_list(&self, key: &str) -> (r: Vec<String>)
        ensures
            texts_view(r@) == self.items_spec(key@),
    {
        match self.find(key) {
            Some(j) => copy_texts(&self.entries[j].items),
            None => {
                let r: Vec<String> = Vec::new();
                assert(texts_view(r@) =~= Seq::<Seq<char>>::empty());
                r
            },
        }
    }

    /// The phase option `step` asks for.
    pub fn get_step(&self) -> (r: PluginStep)
        ensures
            r == self.step_spec(),
    {
        let t = self.get_text("step");
        if t == String::from_str("proxy_upstream") {
            PluginStep::ProxyUpstream
        } else if t == String::from_str("response") {
            PluginStep::Response
        } else {
            PluginStep::Request
        }
    }
}


impl PluginConf {
    /// The configuration as text, one option per line.
    pub fn render(&self) -> (r: String)
        ensures
            r@ == conf_text(self.view_entries()),
    {
        proof {
            reveal_strlit("=");
            reveal_strlit(",");
            reveal_strlit("\n");
        }
        assert("="@ =~= seq!['=']);
        assert(","@ =~= seq![',']);
        assert("\n"@ =~= seq!['\n']);
        let mut r = String::new();
        let mut i: usize = 0;
        let ghost es = self.view_entries();
        assert(es.subrange(0, 0) =~= Seq::<ConfEntryView>::empty());
        while i < self.entries.len()
            invariant
                i <= self.entries@.len(),
                es == self.view_entries(),
                es.len() == self.entries@.len(),
                r@ == conf_text(es.subrange(0, i as int)),
                "="@ == seq!['='],
                ","@ == seq![','],
                "\n"@ == seq!['\n'],
            decreases self.entries@.len() - i,
        {
            let e = &self.entries[i];
            let ghost before = r@;
            r = r.concat(e.key.as_str()).concat("=").concat(e.text.as_str());
            let ghost items = texts_view(e.items@);
            let mut j: usize = 0;
            let ghost mid = r@;
            assert(items.subrange(0, 0) =~= Seq::<Seq<char>>::empty());
            assert(mid =~= mid + items_text(items.subrange(0, 0)));
            while j < e.items.len()
                invariant
                    j <= e.items@.len(),
                    items == texts_view(e.items@),
                    r@ == mid + items_text(items.subrange(0, j as int)),
                    ","@ == seq![','],
                decreases e.items@.len() - j,
            {
                r = r.concat(",").concat(e.items[j].as_str());
                assert(items.subrange(0, j + 1).drop_last() =~= items.subrange(0, j as int));
                assert(items.subrange(0, j + 1).last() == e.items@[j as int]@);
                j += 1;
                assert(r@ =~= mid + items_text(items.subrange(0, j as int)));
            }
            assert(items.subrange(0, e.items@.len() as int) =~= items);
            r = r.concat("\n");
            assert(es[i as int] == (e.key@, e.text@, items));
            assert(es.subrange(0, i + 1).drop_last() =~= es.subrange(0, i as int));
            assert(es.subrange(0, i + 1).last() == es[i as int]);
            assert(r@ =~= before + entry_text(es[i as int]));
            i += 1;
        }
        assert(es.subrange(0, i as int) =~= es);
        r
    }
}

} // verus!
