use vstd::prelude::*;
use crate::robots::{parse_rules, spec_is_allowed, spec_parse_rules, ParsedRules};
use crate::text::{append_str, chars_of, spec_lower, string_of, to_ascii_lowercase};
use crate::weburl::{spec_url_host_str, spec_url_parse, spec_url_path, spec_url_scheme, WebUrl};

pub use crate::robots::is_allowed_by_rules;

verus! {

/// What robots.txt gating keeps for a host.
pub enum CachedEntry {
    /// robots.txt was fetched and parsed.
    Rules(ParsedRules),
    /// robots.txt was missing, answered with an error status, or could not be
    /// fetched: every path is allowed.
    Missing,
}

/// The cache key of a URL's host: the host lowercased; `None` (no gating)
/// for a URL without a host.
pub fn cache_key(url: &WebUrl) -> (res: Option<String>)
    ensures
        match res {
            Some(k) => spec_url_host_str(url@) matches Some(h) && k@ == spec_lower(h),
            None => spec_url_host_str(url@) is None,
        },
{
    match url.host_str() {
        Some(h) => Some(to_ascii_lowercase(h.as_str())),
        None => None,
    }
}

/// The text of the robots.txt URL of `host` under `scheme`.
pub open spec fn spec_robots_url_text(scheme: Seq<char>, host: Seq<char>) -> Seq<char> {
    scheme + "://"@ + host + "/robots.txt"@
}

/// The robots.txt URL of `host` with the scheme of `page_url`:
/// `{scheme}://{host}/robots.txt`, or the parse error's text.
pub fn robots_url_for(host: &str, page_url: &WebUrl) -> (res: Result<WebUrl, String>)
    ensures
        match res {
            Ok(u) => spec_url_parse(spec_robots_url_text(spec_url_scheme(page_url@), host@))
                == Ok::<Seq<char>, Seq<char>>(u@),
            Err(e) => spec_url_parse(spec_robots_url_text(spec_url_scheme(page_url@), host@))
                == Err::<Seq<char>, Seq<char>>(e@),
        },
{
    let scheme = page_url.scheme();
    let mut v: Vec<char> = Vec::new();
    append_str(&mut v, scheme.as_str());
    append_str(&mut v, "://");
    append_str(&mut v, host);
    append_str(&mut v, "/robots.txt");
    let s = string_of(v.as_slice());
    WebUrl::parse(s.as_str())
}

/// The entry for what fetching robots.txt gave: its rules when it was fetched
/// with a 2xx status, `Missing` otherwise.
pub fn entry_from_fetch(fetched: Option<(u16, &str)>) -> (res: CachedEntry)
    ensures
        match fetched {
            Some((status, body)) => if 200 <= status < 300 {
                res matches CachedEntry::Rules(r) && r@ == spec_parse_rules(body@)
            } else {
                res is Missing
            },
            None => res is Missing,
        },
{
    match fetched {
        Some((status, body)) => {
            if 200 <= status && status < 300 {
                CachedEntry::Rules(parse_rules(body))
            } else {
                CachedEntry::Missing
            }
        },
        None => CachedEntry::Missing,
    }
}

/// Whether `url` may be fetched by `user_agent` under a host's entry: always
/// when robots.txt is missing, otherwise as its rules say for the URL's path.
pub fn allowed_by_entry(entry: &CachedEntry, user_agent: &str, url: &WebUrl) -> (res: bool)
    ensures
        match entry {
            CachedEntry::Missing => res,
            CachedEntry::Rules(r) => res == spec_is_allowed(r@, user_agent@, spec_url_path(url@)),
        },
{
    match entry {
        CachedEntry::Missing => true,
        CachedEntry::Rules(rules) => is_allowed_by_rules(rules, user_agent, url.path().as_str()),
    }
}

} // verus!
