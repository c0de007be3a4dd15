use vstd::prelude::*;
use crate::text::spec_no_escape;

verus! {

#[verifier::external_type_specification]
#[verifier::external_body]
pub struct ExOutsideUrl(url::Url);

// Names for what the `url` crate computes. Each is a function of the text it is
// given: a URL's parts are slices of its serialization.

/// `url::Url::parse`: the serialization of the parsed URL, or the error's text.
pub uninterp spec fn spec_url_parse(input: Seq<char>) -> Result<Seq<char>, Seq<char>>;

/// `url::Url::join` on the URL serialized as `base`.
pub uninterp spec fn spec_url_join(base: Seq<char>, input: Seq<char>) -> Result<Seq<char>, Seq<char>>;

/// `url::Url::scheme`.
pub uninterp spec fn spec_url_scheme(url: Seq<char>) -> Seq<char>;

/// `url::Url::host_str`.
pub uninterp spec fn spec_url_host_str(url: Seq<char>) -> Option<Seq<char>>;

/// `url::Url::host`: the kind of host (0 domain, 1 IPv4, 2 IPv6) and its text.
pub uninterp spec fn spec_url_host(url: Seq<char>) -> Option<(u8, Seq<char>)>;

/// `url::Url::path`.
pub uninterp spec fn spec_url_path(url: Seq<char>) -> Seq<char>;

/// `url::Url::query`.
pub uninterp spec fn spec_url_query(url: Seq<char>) -> Option<Seq<char>>;

/// `url::Url::fragment`.
pub uninterp spec fn spec_url_fragment(url: Seq<char>) -> Option<Seq<char>>;

/// `url::Url::query_pairs`: the decoded key/value pairs of the query.
pub uninterp spec fn spec_url_query_pairs(url: Seq<char>) -> Seq<(Seq<char>, Seq<char>)>;

/// `url::Url::set_fragment(None)`: the serialization afterwards.
pub uninterp spec fn spec_url_without_fragment(url: Seq<char>) -> Seq<char>;

/// `url::Url::set_query`: the serialization afterwards.
pub uninterp spec fn spec_url_with_query(url: Seq<char>, query: Option<Seq<char>>) -> Seq<char>;

/// `url::Url::set_path` on an http or https URL: the serialization afterwards.
pub uninterp spec fn spec_url_with_path(url: Seq<char>, path: Seq<char>) -> Seq<char>;

/// `url::form_urlencoded::Serializer` fed `pairs` in order.
pub uninterp spec fn spec_form_urlencode(pairs: Seq<(Seq<char>, Seq<char>)>) -> Seq<char>;

/// A parsed absolute URL: its serialization and the `url` crate's parsed form.
#[derive(Debug)]
pub struct WebUrl {
    text: String,
    parsed: url::Url,
}

impl View for WebUrl {
    type V = Seq<char>;

    /// A URL is identified by its serialization.
    open spec fn view(&self) -> Seq<char> {
        self.spec_text()@
    }
}

impl WebUrl {
    pub closed spec fn spec_text(&self) -> String {
        self.text
    }

    /// A URL's text holds no escape character: the url crate writes every C0
    /// control character of a URL percent-encoded (in the path, query,
    /// fragment and user info) or refuses it (in a host). Every constructor
    /// below makes its value from the url crate's serialization.
    #[verifier::type_invariant]
    pub open spec fn text_has_no_escape(self) -> bool {
        spec_no_escape(self@)
    }

    /// `url::Url::parse`.
    #[verifier::external_body]
    pub fn parse(input: &str) -> (res: Result<WebUrl, String>)
        ensures
            match res {
                Ok(u) => spec_url_parse(input@) == Ok::<Seq<char>, Seq<char>>(u@),
                Err(e) => spec_url_parse(input@) == Err::<Seq<char>, Seq<char>>(e@),
            },
    {
        match url::Url::parse(input) {
            Ok(u) => Ok(WebUrl { text: u.as_str().to_string(), parsed: u }),
            Err(e) => Err(e.to_string()),
        }
    }

    /// `url::Url::join`.
    #[verifier::external_body]
    pub(crate) fn join(&self, input: &str) -> (res: Result<WebUrl, String>)
        ensures
            match res {
                Ok(u) => spec_url_join(self@, input@) == Ok::<Seq<char>, Seq<char>>(u@),
                Err(e) => spec_url_join(self@, input@) == Err::<Seq<char>, Seq<char>>(e@),
            },
    {
        match self.parsed.join(input) {
            Ok(u) => Ok(WebUrl { text: u.as_str().to_string(), parsed: u }),
            Err(e) => Err(e.to_string()),
        }
    }

    /// `url::Url::as_str`.
    pub fn as_str(&self) -> (res: &str)
        ensures
            res@ == self@,
    {
        self.text.as_str()
    }

    /// `url::Url::scheme`.
    #[verifier::external_body]
    pub(crate) fn scheme(&self) -> (res: String)
        ensures
            res@ == spec_url_scheme(self@),
    {
        self.parsed.scheme().to_string()
    }

    /// `url::Url::host_str`.
    #[verifier::external_body]
    pub fn host_str(&self) -> (res: Option<String>)
        ensures
            match res {
                Some(h) => spec_url_host_str(self@) == Some(h@),
                None => spec_url_host_str(self@) is None,
            },
    {
        self.parsed.host_str().map(|h| h.to_string())
    }

    /// `url::Url::host`, as the kind of host (0 domain, 1 IPv4, 2 IPv6) and its text.
    #[verifier::external_body]
    pub(crate) fn host(&self) -> (res: Option<(u8, String)>)
        ensures
            match res {
                Some((k, h)) => spec_url_host(self@) == Some((k, h@)),
                None => spec_url_host(self@) is None,
            },
    {
        match self.parsed.host() {
            Some(url::Host::Domain(d)) => Some((0, d.to_string())),
            Some(url::Host::Ipv4(a)) => Some((1, a.to_string())),
            Some(url::Host::Ipv6(a)) => Some((2, a.to_string())),
            None => None,
        }
    }

    /// `url::Url::path`.
    #[verifier::external_body]
    pub fn path(&self) -> (res: String)
        ensures
            res@ == spec_url_path(self@),
    {
        self.parsed.path().to_string()
    }

    /// `url::Url::query`.
    #[verifier::external_body]
    pub(crate) fn query(&self) -> (res: Option<String>)
        ensures
            match res {
                Some(q) => spec_url_query(self@) == Some(q@),
                None => spec_url_query(self@) is None,
            },
    {
        self.parsed.query().map(|q| q.to_string())
    }

    /// `url::Url::fragment`.
    #[verifier::external_body]
    pub(crate) fn fragment(&self) -> (res: Option<String>)
        ensures
            match res {
                Some(f) => spec_url_fragment(self@) == Some(f@),
                None => spec_url_fragment(self@) is None,
            },
    {
        self.parsed.fragment().map(|f| f.to_string())
    }

    /// `url::Url::query_pairs`, each pair decoded into owned strings.
    #[verifier::external_body]
    pub(crate) fn query_pairs(&self) -> (res: Vec<(String, String)>)
        ensures
            pair_views(res@) == spec_url_query_pairs(self@),
    {
        self.parsed.query_pairs().map(|(k, v)| (k.into_owned(), v.into_owned())).collect()
    }

    /// `url::Url::set_fragment(None)`; afterwards the URL has no fragment, and
    /// its scheme is unchanged.
    #[verifier::external_body]
    pub(crate) fn without_fragment(&self) -> (res: WebUrl)
        ensures
            res@ == spec_url_without_fragment(self@),
            spec_url_fragment(res@) is None,
            spec_url_scheme(res@) == spec_url_scheme(self@),
    {
        let mut u = self.parsed.clone();
        u.set_fragment(None);
        WebUrl { text: u.as_str().to_string(), parsed: u }
    }

    /// `url::Url::set_query`; clearing it leaves the URL without a query (and
    /// so without query pairs). Only the query changes: the scheme and the
    /// fragment stay. A query written by `form_urlencoded`'s serializer holds
    /// only characters that `set_query` keeps as they are, so `query_pairs`
    /// (which is `form_urlencoded::parse` of the query) gives back the pairs
    /// it was written from.
    #[verifier::external_body]
    pub(crate) fn with_query(&self, query: Option<&str>) -> (res: WebUrl)
        ensures
            res@ == spec_url_with_query(self@, opt_view(query)),
            query is None ==> spec_url_query(res@) is None,
            query is None ==> spec_url_query_pairs(res@) == Seq::<(Seq<char>, Seq<char>)>::empty(),
            forall|ps: Seq<(Seq<char>, Seq<char>)>| opt_view(query) == Some(#[trigger] spec_form_urlencode(ps))
                ==> spec_url_query_pairs(res@) == ps,
            spec_url_scheme(res@) == spec_url_scheme(self@),
            spec_url_fragment(res@) == spec_url_fragment(self@),
    {
        let mut u = self.parsed.clone();
        u.set_query(query);
        WebUrl { text: u.as_str().to_string(), parsed: u }
    }

    /// `url::Url::set_path` on an http or https URL. Such a URL can be a
    /// base, so the new path is percent-encoded (`?` and `#` included) and only
    /// the path changes: the scheme, the query and the fragment stay. (On a URL
    /// that cannot be a base, such as `mailto:`, a `?` or `#` in the path
    /// would start a query or fragment, hence the `requires`.)
    #[verifier::external_body]
    pub(crate) fn with_path(&self, path: &str) -> (res: WebUrl)
        requires
            spec_url_scheme(self@) == "http"@ || spec_url_scheme(self@) == "https"@,
        ensures
            res@ == spec_url_with_path(self@, path@),
            spec_url_scheme(res@) == spec_url_scheme(self@),
            spec_url_query(res@) == spec_url_query(self@),
            spec_url_query_pairs(res@) == spec_url_query_pairs(self@),
            spec_url_fragment(res@) == spec_url_fragment(self@),
    {
        let mut u = self.parsed.clone();
        u.set_path(path);
        WebUrl { text: u.as_str().to_string(), parsed: u }
    }
}

/// The views of a sequence of string pairs.
pub open spec fn pair_views(v: Seq<(String, String)>) -> Seq<(Seq<char>, Seq<char>)> {
    v.map_values(|p: (String, String)| (p.0@, p.1@))
}

/// The view of an optional string slice.
pub open spec fn opt_view(o: Option<&str>) -> Option<Seq<char>> {
    match o {
        Some(s) => Some(s@),
        None => None,
    }
}

/// `url::form_urlencoded::Serializer::new(String::new()).extend_pairs(pairs).finish()`.
#[verifier::external_body]
pub(crate) fn form_urlencode(pairs: &Vec<(String, String)>) -> (res: String)
    ensures
        res@ == spec_form_urlencode(pair_views(pairs@)),
{
    url::form_urlencoded::Serializer::new(String::new()).extend_pairs(pairs.iter()).finish()
}

impl PartialEq for WebUrl {
    fn eq(&self, other: &Self) -> (res: bool) {
        self.text == other.text
    }
}

impl vstd::std_specs::cmp::PartialEqSpecImpl for WebUrl {
    open spec fn obeys_eq_spec() -> bool {
        true
    }

    open spec fn eq_spec(&self, other: &Self) -> bool {
        self@ == other@
    }
}

impl Eq for WebUrl {}

/// `Clone::clone` of `url::Url`; nothing is claimed of the copy, whose text
/// the library keeps beside it.
#[verifier::external_body]
fn clone_parsed(u: &url::Url) -> url::Url {
    u.clone()
}

impl Clone for WebUrl {
    fn clone(&self) -> (res: Self)
        ensures
            res@ == self@,
    {
        proof {
            use_type_invariant(self);
        }
        WebUrl { text: self.text.clone(), parsed: clone_parsed(&self.parsed) }
    }
}

} // verus!
