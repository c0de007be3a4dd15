use vstd::prelude::*;
use crate::model::{finding, finding_views, spec_finding, url_views, Category, Finding, FindingView, Severity};
use crate::parser::dom::{spec_dom_attrs, spec_present_opt, str_views, Dom};
use crate::parser::links::{normalize, spec_normalize};
use crate::text::{append, append_str, chars_eq, chars_of, decimal, spec_decimal, string_of, trim};
use crate::weburl::{spec_url_host_str, WebUrl};

verus! {

/// Links of a page that lead nowhere.
pub struct BrokenLinksAuditor;

/// How many links are probed at once.
pub const MAX_CONCURRENT_PROBES: usize = 32;

/// What probing a link found.
#[derive(Debug, Clone, Copy, PartialEq, Eq, Structural)]
pub enum ProbeOutcome {
    Reachable,
    Status4xx(u16),
    Status5xx(u16),
    Unreachable,
}

/// The `href` of every `<a href>` of a page's HTML, as written.
pub fn extract_hrefs(html: &str) -> (res: Vec<String>)
    ensures
        str_views(res@) == spec_present_opt(spec_dom_attrs(html@, "a[href]"@, seq!["href"@])),
{
    let dom = Dom::parse(html);
    dom.links()
}

/// `s` with `u` added at the end unless it is already there.
pub open spec fn spec_add_once(s: Seq<Seq<char>>, u: Seq<char>) -> Seq<Seq<char>> {
    if s.contains(u) { s } else { s.push(u) }
}

/// The normalized links of `hrefs`, split into those on `base`'s host and
/// those on another host, each once in order of first occurrence. Hrefs that
/// do not normalize, or have no host, are dropped.
pub open spec fn spec_partition(base: Seq<char>, hrefs: Seq<Seq<char>>) -> (Seq<Seq<char>>, Seq<Seq<char>>)
    decreases hrefs.len(),
{
    if hrefs.len() == 0 {
        (Seq::empty(), Seq::empty())
    } else {
        let (i, e) = spec_partition(base, hrefs.drop_last());
        match spec_normalize(base, hrefs.last()) {
            None => (i, e),
            Some(u) => match spec_url_host_str(u) {
                None => (i, e),
                Some(h) => if spec_url_host_str(base) == Some(h) {
                    (spec_add_once(i, u), e)
                } else {
                    (i, spec_add_once(e, u))
                },
            },
        }
    }
}

fn add_once(v: &mut Vec<WebUrl>, u: WebUrl)
    ensures
        url_views(final(v)@) == spec_add_once(url_views(old(v)@), u@),
{
    let uc = chars_of(u.as_str());
    let ghost start = url_views(v@);
    for k in 0..v.len()
        invariant
            uc@ == u@,
            start == url_views(v@),
            forall|j: int| 0 <= j < k ==> start[j] != u@,
    {
        assert(start[k as int] == v@[k as int]@);
        if chars_eq(chars_of(v[k].as_str()).as_slice(), uc.as_slice()) {
            assert(start.contains(u@));
            return;
        }
    }
    assert(!start.contains(u@));
    v.push(u);
    assert(url_views(v@) =~= start.push(u@));
}

/// Splits the links of `hrefs` into internal and external ones.
pub fn partition(hrefs: &[String], base: &WebUrl) -> (res: (Vec<WebUrl>, Vec<WebUrl>))
    ensures
        (url_views(res.0@), url_views(res.1@)) == spec_partition(base@, str_views(hrefs@)),
{
    let ghost hv = str_views(hrefs@);
    let mut internal: Vec<WebUrl> = Vec::new();
    let mut external: Vec<WebUrl> = Vec::new();
    let base_host = base.host_str();
    for i in 0..hrefs.len()
        invariant
            hv == str_views(hrefs@),
            crate::text::opt_string_view(base_host) == spec_url_host_str(base@),
            (url_views(internal@), url_views(external@)) == spec_partition(base@, hv.take(i as int)),
    {
        assert(hv.take(i + 1).drop_last() =~= hv.take(i as int));
        assert(hv[i as int] == hrefs@[i as int]@);
        let t = trim(hrefs[i].as_str());
        let tc = chars_of(t.as_str());
        let fragment_only = tc.len() > 0 && tc[0] == '#';
        if !fragment_only {
            match normalize(base, hrefs[i].as_str()) {
                None => {},
                Some(u) => {
                    match u.host_str() {
                        None => {},
                        Some(h) => {
                            let same = match &base_host {
                                Some(b) => chars_eq(chars_of(h.as_str()).as_slice(), chars_of(b.as_str()).as_slice()),
                                None => false,
                            };
                            if same {
                                add_once(&mut internal, u);
                            } else {
                                add_once(&mut external, u);
                            }
                        },
                    }
                },
            }
        }
    }
    assert(hv.take(hrefs@.len() as int) =~= hv);
    (internal, external)
}

/// The links to probe: the internal ones, then the external ones when those
/// are checked too.
pub fn to_probe(internal: Vec<WebUrl>, external: Vec<WebUrl>, check_external_links: bool) -> (res: Vec<WebUrl>)
    ensures
        url_views(res@) == if check_external_links {
            url_views(internal@) + url_views(external@)
        } else {
            url_views(internal@)
        },
{
    let mut res = internal;
    if check_external_links {
        let ghost start = url_views(res@);
        let mut ext = external;
        let ghost ev = url_views(ext@);
        let mut k: usize = 0;
        let n = ext.len();
        while k < n
            invariant
                n == ev.len(),
                k <= n,
                ev == url_views(ext@),
                url_views(res@) == start + ev.take(k as int),
            decreases n - k,
        {
            let u = ext[k].clone();
            let ghost before = url_views(res@);
            res.push(u);
            assert(url_views(res@) =~= before.push(ev[k as int]));
            assert(url_views(res@) =~= start + ev.take(k + 1));
            k = k + 1;
        }
        assert(ev.take(n as int) =~= ev);
    }
    res
}

/// The status a HEAD answer settles, or `None` when the link must be fetched
/// with GET instead: the HEAD request failed (`None`) or was answered 405.
pub open spec fn spec_head_status(head: Option<u16>) -> Option<u16> {
    match head {
        Some(s) => if s == 405 { None } else { Some(s) },
        None => None,
    }
}

/// The status a HEAD answer settles, or `None` when GET must follow.
pub fn head_status(head: Option<u16>) -> (res: Option<u16>)
    ensures
        res == spec_head_status(head),
{
    match head {
        Some(s) => if s == 405 { None } else { Some(s) },
        None => None,
    }
}

/// The outcome for a final status (`None` when no response came).
pub open spec fn spec_classify(status: Option<u16>) -> ProbeOutcome {
    match status {
        Some(s) => if 200 <= s <= 399 {
            ProbeOutcome::Reachable
        } else if 400 <= s <= 499 {
            ProbeOutcome::Status4xx(s)
        } else if 500 <= s <= 599 {
            ProbeOutcome::Status5xx(s)
        } else {
            ProbeOutcome::Unreachable
        },
        None => ProbeOutcome::Unreachable,
    }
}

/// The outcome for a final status (`None` when no response came).
pub fn classify(status: Option<u16>) -> (res: ProbeOutcome)
    ensures
        res == spec_classify(status),
{
    match status {
        Some(s) => if 200 <= s && s <= 399 {
            ProbeOutcome::Reachable
        } else if 400 <= s && s <= 499 {
            ProbeOutcome::Status4xx(s)
        } else if 500 <= s && s <= 599 {
            ProbeOutcome::Status5xx(s)
        } else {
            ProbeOutcome::Unreachable
        },
        None => ProbeOutcome::Unreachable,
    }
}

/// The finding for one probed link, if it is broken.
pub open spec fn spec_outcome_findings(url: Seq<char>, o: ProbeOutcome) -> Seq<FindingView> {
    match o {
        ProbeOutcome::Reachable => Seq::empty(),
        ProbeOutcome::Status4xx(s) => seq![spec_finding("links.broken-4xx"@, Category::Links, Severity::Warning, 10,
            "Broken link (HTTP "@ + spec_decimal(s as nat) + "): "@ + url)],
        ProbeOutcome::Status5xx(s) => seq![spec_finding("links.broken-5xx"@, Category::Links, Severity::Critical, 20,
            "Server error link (HTTP "@ + spec_decimal(s as nat) + "): "@ + url)],
        ProbeOutcome::Unreachable => seq![spec_finding("links.unreachable"@, Category::Links, Severity::Warning, 10,
            "Unreachable link: "@ + url)],
    }
}

/// The findings for the probed links, in the order given.
pub open spec fn spec_probe_findings(rs: Seq<(Seq<char>, ProbeOutcome)>) -> Seq<FindingView>
    decreases rs.len(),
{
    if rs.len() == 0 {
        Seq::empty()
    } else {
        spec_probe_findings(rs.drop_last()) + spec_outcome_findings(rs.last().0, rs.last().1)
    }
}

fn status_message(prefix: &str, s: u16, url: &WebUrl) -> (res: String)
    ensures
        res@ == prefix@ + spec_decimal(s as nat) + "): "@ + url@,
{
    let mut m: Vec<char> = Vec::new();
    append_str(&mut m, prefix);
    append(&mut m, decimal(s as u64).as_slice());
    append_str(&mut m, "): ");
    append_str(&mut m, url.as_str());
    string_of(m.as_slice())
}

impl BrokenLinksAuditor {
    /// The check's identifier.
    pub fn id(&self) -> (res: &'static str)
        ensures
            res@ == "links"@,
    {
        "links"
    }

    /// The category of its findings.
    pub fn category(&self) -> (res: Category)
        ensures
            res == Category::Links,
    {
        Category::Links
    }

    /// The findings for the probed links, in the order the probes finished.
    pub fn findings(&self, results: &Vec<(WebUrl, ProbeOutcome)>) -> (res: Vec<Finding>)
        ensures
            finding_views(res@) == spec_probe_findings(
                results@.map_values(|r: (WebUrl, ProbeOutcome)| (r.0@, r.1)),
            ),
    {
        let ghost rv = results@.map_values(|r: (WebUrl, ProbeOutcome)| (r.0@, r.1));
        let mut out: Vec<Finding> = Vec::new();
        for i in 0..results.len()
            invariant
                rv == results@.map_values(|r: (WebUrl, ProbeOutcome)| (r.0@, r.1)),
                finding_views(out@) == spec_probe_findings(rv.take(i as int)),
        {
            assert(rv.take(i + 1).drop_last() =~= rv.take(i as int));
            let (url, o) = &results[i];
            assert(rv[i as int] == (url@, *o));
            let ghost before = finding_views(out@);
            match o {
                ProbeOutcome::Reachable => {},
                ProbeOutcome::Status4xx(s) => {
                    out.push(finding("links.broken-4xx", Category::Links, Severity::Warning, 10,
                        status_message("Broken link (HTTP ", *s, url)));
                },
                ProbeOutcome::Status5xx(s) => {
                    out.push(finding("links.broken-5xx", Category::Links, Severity::Critical, 20,
                        status_message("Server error link (HTTP ", *s, url)));
                },
                ProbeOutcome::Unreachable => {
                    out.push(finding("links.unreachable", Category::Links, Severity::Warning, 10,
                        crate::audit::text_message("Unreachable link: ", url.as_str())));
                },
            }
            assert(finding_views(out@) =~= before + spec_outcome_findings(url@, *o));
        }
        assert(rv.take(results@.len() as int) =~= rv);
        out
    }
}

} // verus!
