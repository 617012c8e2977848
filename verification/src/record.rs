use vstd::prelude::*;

verus! {

/// All supported browsers.
#[derive(Clone, Copy, Debug, PartialEq, Eq, Hash, Structural)]
pub enum Browser {
    Firefox,
}

/// Every supported browser, each once.
pub open spec fn supported_browsers() -> Seq<Browser> {
    seq![Browser::Firefox]
}

impl Browser {
    /// Every supported browser, each once: see [`supported_browsers`].
    pub fn all() -> (browsers: Vec<Browser>)
        ensures
            browsers@ == supported_browsers(),
    {
        let mut browsers: Vec<Browser> = Vec::new();
        browsers.push(Browser::Firefox);
        assert(browsers@ =~= supported_browsers());
        browsers
    }
}

/// The text of a cookie that a filter looks at.
#[derive(Clone, Copy, Debug, PartialEq, Eq, Hash, Structural)]
pub enum Attribute {
    Name,
    Value,
    Domain,
    Path,
}

/// One cookie as a store holds it.
///
/// `name` is the key under which the cookie is merged. `expiry`, `secure`
/// and `host_only` are what the store says beyond the four texts; the
/// extraction never looks at them.
#[derive(Debug, PartialEq, Eq)]
pub struct CookieRecord {
    pub name: String,
    pub value: String,
    pub domain: Option<String>,
    pub path: Option<String>,
    /// Seconds since the Unix epoch.
    pub expiry: Option<i64>,
    pub secure: Option<bool>,
    pub host_only: Option<bool>,
}

/// A cookie record as a mathematical value.
pub struct RecordView {
    pub name: Seq<char>,
    pub value: Seq<char>,
    pub domain: Option<Seq<char>>,
    pub path: Option<Seq<char>>,
    pub expiry: Option<i64>,
    pub secure: Option<bool>,
    pub host_only: Option<bool>,
}

/// The characters of each text of a sequence.
pub open spec fn texts_view(texts: Seq<String>) -> Seq<Seq<char>> {
    texts.map_values(|text: String| text@)
}

/// The characters of an optional text.
pub open spec fn text_view(text: Option<String>) -> Option<Seq<char>> {
    match text {
        Some(s) => Some(s@),
        None => None,
    }
}

impl View for CookieRecord {
    type V = RecordView;

    open spec fn view(&self) -> RecordView {
        RecordView {
            name: self.name@,
            value: self.value@,
            domain: text_view(self.domain),
            path: text_view(self.path),
            expiry: self.expiry,
            secure: self.secure,
            host_only: self.host_only,
        }
    }
}

impl RecordView {
    /// The text that `attribute` selects. A cookie without a domain or a
    /// path has the empty text there.
    pub open spec fn text(self, attribute: Attribute) -> Seq<char> {
        match attribute {
            Attribute::Name => self.name,
            Attribute::Value => self.value,
            Attribute::Domain => match self.domain {
                Some(domain) => domain,
                None => Seq::empty(),
            },
            Attribute::Path => match self.path {
                Some(path) => path,
                None => Seq::empty(),
            },
        }
    }
}

/// A copy of an optional text.
fn copy_text(text: &Option<String>) -> (copy: Option<String>)
    ensures
        copy == *text,
{
    match text {
        Some(s) => Some(s.clone()),
        None => None,
    }
}

impl Clone for CookieRecord {
    fn clone(&self) -> (copy: Self)
        ensures
            copy == *self,
    {
        CookieRecord {
            name: self.name.clone(),
            value: self.value.clone(),
            domain: copy_text(&self.domain),
            path: copy_text(&self.path),
            expiry: self.expiry,
            secure: self.secure,
            host_only: self.host_only,
        }
    }
}

impl CookieRecord {
    /// The text that `attribute` selects: see [`RecordView::text`].
    pub fn text(&self, attribute: Attribute) -> (text: &str)
        ensures
            text@ == self@.text(attribute),
    {
        proof {
            reveal_strlit("");
        }
        match attribute {
            Attribute::Name => self.name.as_str(),
            Attribute::Value => self.value.as_str(),
            Attribute::Domain => match &self.domain {
                Some(domain) => domain.as_str(),
                None => "",
            },
            Attribute::Path => match &self.path {
                Some(path) => path.as_str(),
                None => "",
            },
        }
    }
}

/// Where one cookie store lies, and whose it is.
#[derive(Debug, PartialEq, Eq)]
pub struct StoreLocation {
    pub path: String,
    pub browser: Browser,
}

/// A store location as a mathematical value.
pub struct LocationView {
    pub path: Seq<char>,
    pub browser: Browser,
}

impl View for StoreLocation {
    type V = LocationView;

    open spec fn view(&self) -> LocationView {
        LocationView { path: self.path@, browser: self.browser }
    }
}

} // verus!
