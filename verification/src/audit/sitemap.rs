use vstd::prelude::*;
use crate::audit::robots::fetched_view;
use crate::model::{finding, finding_views, spec_finding, Category, Finding, FindingView, Severity};
use crate::text::{
    before, chars_of, eq_ignore_ascii_case, lines, spec_before, spec_lines, spec_lower,
    spec_split_once, spec_trim, split_once, string_of, trim_chars, views,
};
use crate::weburl::{spec_url_join, spec_url_parse, WebUrl};

verus! {

/// The site's XML sitemap.
pub struct SitemapAuditor;

// ── Finding the sitemap ─────────────────────────────────────────────────────

/// The sitemap URL a robots.txt line names, if it is a non-empty `Sitemap:`
/// directive (any case) whose value parses as a URL or resolves against `root`.
pub open spec fn spec_line_sitemap(raw: Seq<char>, root: Seq<char>) -> Option<Seq<char>> {
    let line = spec_trim(spec_before(raw, '#'));
    match spec_split_once(line, ':') {
        None => None,
        Some((d, v)) => {
            let value = spec_trim(v);
            if spec_lower(spec_trim(d)) == spec_lower("sitemap"@) && value.len() > 0 {
                match spec_url_parse(value) {
                    Ok(u) => Some(u),
                    Err(_) => match spec_url_join(root, value) {
                        Ok(u) => Some(u),
                        Err(_) => None,
                    },
                }
            } else {
                None
            }
        },
    }
}

/// The sitemap URL of the first line that names one.
pub open spec fn spec_first_sitemap(ls: Seq<Seq<char>>, root: Seq<char>) -> Option<Seq<char>>
    decreases ls.len(),
{
    if ls.len() == 0 {
        None
    } else {
        match spec_line_sitemap(ls[0], root) {
            Some(u) => Some(u),
            None => spec_first_sitemap(ls.drop_first(), root),
        }
    }
}

fn line_sitemap(raw: &[char], root: &WebUrl) -> (res: Option<WebUrl>)
    ensures
        match res {
            Some(u) => spec_line_sitemap(raw@, root@) == Some(u@),
            None => spec_line_sitemap(raw@, root@) is None,
        },
{
    let stripped = before(raw, '#');
    let line = trim_chars(stripped.as_slice());
    match split_once(line.as_slice(), ':') {
        None => None,
        Some((d, v)) => {
            let dt = trim_chars(d.as_slice());
            let value = trim_chars(v.as_slice());
            if eq_ignore_ascii_case(dt.as_slice(), chars_of("sitemap").as_slice()) && value.len() > 0 {
                let s = string_of(value.as_slice());
                match WebUrl::parse(s.as_str()) {
                    Ok(u) => Some(u),
                    Err(_) => match root.join(s.as_str()) {
                        Ok(u) => Some(u),
                        Err(_) => None,
                    },
                }
            } else {
                None
            }
        },
    }
}

/// The URL of the first `Sitemap:` directive of a robots.txt body that gives
/// a usable URL (absolute, or resolved against `root`).
pub fn resolve_sitemap_url(robots_body: &str, root: &WebUrl) -> (res: Option<WebUrl>)
    ensures
        match res {
            Some(u) => spec_first_sitemap(spec_lines(robots_body@), root@) == Some(u@),
            None => spec_first_sitemap(spec_lines(robots_body@), root@) is None,
        },
{
    let chars = chars_of(robots_body);
    let ls = lines(chars.as_slice());
    let ghost all = views(ls@);
    assert(all.skip(0) =~= all);
    let mut i: usize = 0;
    while i < ls.len()
        invariant
            i <= ls@.len(),
            all == views(ls@),
            all == spec_lines(robots_body@),
            spec_first_sitemap(all, root@) == spec_first_sitemap(all.skip(i as int), root@),
        decreases ls@.len() - i,
    {
        assert(all.skip(i as int)[0] == ls@[i as int]@);
        assert(all.skip(i as int).drop_first() =~= all.skip(i + 1));
        match line_sitemap(ls[i].as_slice(), root) {
            Some(u) => {
                return Some(u);
            },
            None => {},
        }
        i = i + 1;
    }
    None
}

/// `/sitemap.xml` resolved against `root`, or `root` itself if that fails.
pub open spec fn spec_fallback_sitemap(root: Seq<char>) -> Seq<char> {
    match spec_url_join(root, "/sitemap.xml"@) {
        Ok(u) => u,
        Err(_) => root,
    }
}

/// `/sitemap.xml` resolved against `root`, or `root` itself if that fails.
pub fn fallback_sitemap_url(root: &WebUrl) -> (res: WebUrl)
    ensures
        res@ == spec_fallback_sitemap(root@),
{
    match root.join("/sitemap.xml") {
        Ok(u) => u,
        Err(_) => root.clone(),
    }
}

/// Where to look for the sitemap, given what fetching robots.txt gave: the
/// URL it names when it was fetched with a 2xx status and names one, else
/// `/sitemap.xml`.
pub open spec fn spec_sitemap_location(page_url: Seq<char>, robots: Option<(u16, Seq<char>)>) -> Seq<char> {
    match robots {
        Some((status, body)) => if 200 <= status < 300 {
            match spec_first_sitemap(spec_lines(body), page_url) {
                Some(u) => u,
                None => spec_fallback_sitemap(page_url),
            }
        } else {
            spec_fallback_sitemap(page_url)
        },
        None => spec_fallback_sitemap(page_url),
    }
}

// ── Checking the XML ────────────────────────────────────────────────────────

/// What `quick_xml`'s reader yields, as far as the check reads it.
pub enum XmlEvent {
    Start,
    End,
    Other,
    Eof,
    Error(String),
}

/// The mathematical content of an [`XmlEvent`].
pub enum XmlEventView {
    Start,
    End,
    Other,
    Eof,
    Error(Seq<char>),
}

impl View for XmlEvent {
    type V = XmlEventView;

    open spec fn view(&self) -> XmlEventView {
        match self {
            XmlEvent::Start => XmlEventView::Start,
            XmlEvent::End => XmlEventView::End,
            XmlEvent::Other => XmlEventView::Other,
            XmlEvent::Eof => XmlEventView::Eof,
            XmlEvent::Error(m) => XmlEventView::Error(m@),
        }
    }
}

pub open spec fn event_views(v: Seq<XmlEvent>) -> Seq<XmlEventView> {
    v.map_values(|e: XmlEvent| e@)
}

/// The events `quick_xml` reads from `bytes` (with text trimmed), up to and
/// including the end of the document or the first error.
pub uninterp spec fn spec_xml_events(bytes: Seq<u8>) -> Seq<XmlEventView>;

/// `quick_xml::Reader::read_event_into`, called until the end of the document
/// or the first error, on a reader over `bytes` that trims text.
#[verifier::external_body]
fn xml_events(bytes: &[u8]) -> (res: Vec<XmlEvent>)
    ensures
        event_views(res@) == spec_xml_events(bytes@),
{
    let mut reader = quick_xml::Reader::from_reader(bytes);
    reader.config_mut().trim_text(true);
    let mut buf = Vec::new();
    let mut out = Vec::new();
    loop {
        buf.clear();
        match reader.read_event_into(&mut buf) {
            Ok(quick_xml::events::Event::Eof) => { out.push(XmlEvent::Eof); return out; },
            Ok(quick_xml::events::Event::Start(_)) => out.push(XmlEvent::Start),
            Ok(quick_xml::events::Event::End(_)) => out.push(XmlEvent::End),
            Ok(_) => out.push(XmlEvent::Other),
            Err(e) => { out.push(XmlEvent::Error(e.to_string())); return out; },
        }
    }
}

/// Why a sitemap is not well-formed XML.
#[derive(Debug)]
pub enum XmlCheckError {
    /// The reader reported an error.
    Syntax(String),
    /// The document ended with elements still open.
    Unclosed,
}

/// The outcome of checking a document.
pub enum XmlVerdict {
    Valid,
    Unclosed,
    Syntax(Seq<char>),
}

/// The verdict on the remaining events `evs` with `depth` elements open:
/// the document must end with every element closed (an end tag with none
/// open is ignored), and without a reader error.
pub open spec fn spec_xml_verdict(evs: Seq<XmlEventView>, depth: nat) -> XmlVerdict
    decreases evs.len(),
{
    if evs.len() == 0 {
        if depth == 0 { XmlVerdict::Valid } else { XmlVerdict::Unclosed }
    } else {
        match evs[0] {
            XmlEventView::Eof => if depth == 0 { XmlVerdict::Valid } else { XmlVerdict::Unclosed },
            XmlEventView::Error(m) => XmlVerdict::Syntax(m),
            XmlEventView::Start => spec_xml_verdict(evs.drop_first(), depth + 1),
            XmlEventView::End => spec_xml_verdict(evs.drop_first(), if depth == 0 { 0 } else { (depth - 1) as nat }),
            XmlEventView::Other => spec_xml_verdict(evs.drop_first(), depth),
        }
    }
}

pub open spec fn verdict_of(r: Result<(), XmlCheckError>) -> XmlVerdict {
    match r {
        Ok(()) => XmlVerdict::Valid,
        Err(XmlCheckError::Unclosed) => XmlVerdict::Unclosed,
        Err(XmlCheckError::Syntax(m)) => XmlVerdict::Syntax(m@),
    }
}

/// Checks that `bytes` is a well-formed XML document: no reader error, and no
/// element left open at the end.
pub fn validate_sitemap_xml(bytes: &[u8]) -> (res: Result<(), XmlCheckError>)
    ensures
        verdict_of(res) == spec_xml_verdict(spec_xml_events(bytes@), 0),
{
    let evs = xml_events(bytes);
    let ghost ev = event_views(evs@);
    let mut depth: usize = 0;
    let mut i: usize = 0;
    assert(ev.skip(0) =~= ev);
    while i < evs.len()
        invariant
            i <= evs@.len(),
            depth <= i,
            ev == event_views(evs@),
            ev == spec_xml_events(bytes@),
            spec_xml_verdict(ev, 0) == spec_xml_verdict(ev.skip(i as int), depth as nat),
        decreases evs@.len() - i,
    {
        assert(ev.skip(i as int)[0] == evs@[i as int]@);
        assert(ev.skip(i as int).drop_first() =~= ev.skip(i + 1));
        match &evs[i] {
            XmlEvent::Eof => {
                if depth == 0 {
                    return Ok(());
                }
                return Err(XmlCheckError::Unclosed);
            },
            XmlEvent::Error(m) => {
                return Err(XmlCheckError::Syntax(m.clone()));
            },
            XmlEvent::Start => {
                depth = depth + 1;
            },
            XmlEvent::End => {
                if depth > 0 {
                    depth = depth - 1;
                }
            },
            XmlEvent::Other => {},
        }
        i = i + 1;
    }
    if depth == 0 {
        Ok(())
    } else {
        Err(XmlCheckError::Unclosed)
    }
}

/// The finding for a sitemap that could not be had.
pub open spec fn spec_sitemap_missing() -> FindingView {
    spec_finding("sitemap.missing"@, Category::Crawlability, Severity::Warning, 5,
        "sitemap.xml not found or inaccessible"@)
}

/// The sitemap findings given what fetching it gave: missing unless fetched
/// with a 2xx status; malformed unless its text is well-formed XML.
pub open spec fn spec_sitemap_audit(fetched: Option<(u16, Seq<char>)>) -> Seq<FindingView> {
    match fetched {
        None => seq![spec_sitemap_missing()],
        Some((status, body)) => if !(200 <= status < 300) {
            seq![spec_sitemap_missing()]
        } else {
            match spec_xml_verdict(spec_xml_events(vstd::utf8::encode_utf8(body)), 0) {
                XmlVerdict::Valid => Seq::empty(),
                _ => seq![spec_finding("sitemap.malformed"@, Category::Crawlability, Severity::Critical, 20,
                    "sitemap.xml is present but could not be parsed as valid XML"@)],
            }
        },
    }
}

impl SitemapAuditor {
    /// The check's identifier.
    pub fn id(&self) -> (res: &'static str)
        ensures
            res@ == "sitemap"@,
    {
        "sitemap"
    }

    /// The category of its findings.
    pub fn category(&self) -> (res: Category)
        ensures
            res == Category::Crawlability,
    {
        Category::Crawlability
    }

    /// Where to fetch the sitemap, given the status and body fetched for
    /// robots.txt (`None` when there was no robots URL or the fetch failed).
    pub fn sitemap_location(&self, page_url: &WebUrl, robots: Option<(u16, &str)>) -> (res: WebUrl)
        ensures
            res@ == spec_sitemap_location(page_url@, fetched_view(robots)),
    {
        match robots {
            Some((status, body)) => {
                if 200 <= status && status < 300 {
                    match resolve_sitemap_url(body, page_url) {
                        Some(u) => u,
                        None => fallback_sitemap_url(page_url),
                    }
                } else {
                    fallback_sitemap_url(page_url)
                }
            },
            None => fallback_sitemap_url(page_url),
        }
    }

    /// The findings, given the status and body fetched for the sitemap (`None`
    /// when the fetch failed).
    pub fn findings(&self, fetched: Option<(u16, &str)>) -> (res: Vec<Finding>)
        ensures
            finding_views(res@) == spec_sitemap_audit(fetched_view(fetched)),
    {
        let mut out: Vec<Finding> = Vec::new();
        match fetched {
            None => {
                out.push(finding("sitemap.missing", Category::Crawlability, Severity::Warning, 5,
                    "sitemap.xml not found or inaccessible".to_owned()));
            },
            Some((status, body)) => {
                if !(200 <= status && status < 300) {
                    out.push(finding("sitemap.missing", Category::Crawlability, Severity::Warning, 5,
                        "sitemap.xml not found or inaccessible".to_owned()));
                } else {
                    match validate_sitemap_xml(body.as_bytes()) {
                        Ok(()) => {},
                        Err(_) => {
                            out.push(finding("sitemap.malformed", Category::Crawlability, Severity::Critical, 20,
                                "sitemap.xml is present but could not be parsed as valid XML".to_owned()));
                        },
                    }
                }
            },
        }
        assert(finding_views(out@) =~= spec_sitemap_audit(fetched_view(fetched)));
        out
    }
}

} // verus!
