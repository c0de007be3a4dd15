use vstd::prelude::*;
use crate::model::{finding, finding_views, spec_finding, Category, Finding, FindingView, Severity};
use crate::robots::spec_parse_rules;
use crate::weburl::{spec_url_join, WebUrl};

pub use crate::robots::{parse_rules, ParsedRules};

verus! {

/// The site's robots.txt.
pub struct RobotsAuditor;

/// The finding for a robots.txt that could not be had.
pub open spec fn spec_robots_missing() -> FindingView {
    spec_finding("robots.missing"@, Category::Crawlability, Severity::Warning, 15,
        "robots.txt not found or inaccessible"@)
}

/// The robots.txt findings given what fetching it gave (`None` when it could
/// not be fetched): missing unless the status is 2xx; otherwise a critical
/// finding when it disallows everything to `*`, and a note when it names no
/// sitemap.
pub open spec fn spec_robots_audit(fetched: Option<(u16, Seq<char>)>) -> Seq<FindingView> {
    match fetched {
        None => seq![spec_robots_missing()],
        Some((status, body)) => if !(200 <= status < 300) {
            seq![spec_robots_missing()]
        } else {
            let r = spec_parse_rules(body);
            let a = if r.star_disallow_all {
                seq![spec_finding("robots.disallow-all"@, Category::Crawlability, Severity::Critical, 40,
                    "robots.txt disallows all crawlers (Disallow: / for User-agent: *)"@)]
            } else {
                Seq::empty()
            };
            if !r.has_sitemap {
                a.push(spec_finding("robots.no-sitemap"@, Category::Crawlability, Severity::Info, 5,
                    "robots.txt does not contain a Sitemap: directive"@))
            } else {
                a
            }
        },
    }
}

/// The view of a fetched response's status and body.
pub open spec fn fetched_view(f: Option<(u16, &str)>) -> Option<(u16, Seq<char>)> {
    match f {
        Some((s, b)) => Some((s, b@)),
        None => None,
    }
}

impl RobotsAuditor {
    /// The check's identifier.
    pub fn id(&self) -> (res: &'static str)
        ensures
            res@ == "robots"@,
    {
        "robots"
    }

    /// The category of its findings.
    pub fn category(&self) -> (res: Category)
        ensures
            res == Category::Crawlability,
    {
        Category::Crawlability
    }

    /// Where the robots.txt of the page's site is: `/robots.txt` resolved
    /// against the page.
    pub fn robots_url(page_url: &WebUrl) -> (res: Option<WebUrl>)
        ensures
            match res {
                Some(u) => spec_url_join(page_url@, "/robots.txt"@) == Ok::<Seq<char>, Seq<char>>(u@),
                None => spec_url_join(page_url@, "/robots.txt"@) is Err,
            },
    {
        match page_url.join("/robots.txt") {
            Ok(u) => Some(u),
            Err(_) => None,
        }
    }

    /// The findings, given the status and body fetched from the robots URL
    /// (`None` when there was no URL or the fetch failed).
    pub fn findings(&self, fetched: Option<(u16, &str)>) -> (res: Vec<Finding>)
        ensures
            finding_views(res@) == spec_robots_audit(fetched_view(fetched)),
    {
        let mut out: Vec<Finding> = Vec::new();
        match fetched {
            None => {
                out.push(finding("robots.missing", Category::Crawlability, Severity::Warning, 15,
                    "robots.txt not found or inaccessible".to_owned()));
            },
            Some((status, body)) => {
                if !(200 <= status && status < 300) {
                    out.push(finding("robots.missing", Category::Crawlability, Severity::Warning, 15,
                        "robots.txt not found or inaccessible".to_owned()));
                } else {
                    let parsed = parse_rules(body);
                    if parsed.star_disallow_all {
                        out.push(finding("robots.disallow-all", Category::Crawlability, Severity::Critical, 40,
                            "robots.txt disallows all crawlers (Disallow: / for User-agent: *)".to_owned()));
                    }
                    if !parsed.has_sitemap {
                        let ghost before = finding_views(out@);
                        out.push(finding("robots.no-sitemap", Category::Crawlability, Severity::Info, 5,
                            "robots.txt does not contain a Sitemap: directive".to_owned()));
                        assert(finding_views(out@) =~= before.push(out@.last()@));
                    }
                }
            },
        }
        assert(finding_views(out@) =~= spec_robots_audit(fetched_view(fetched)));
        out
    }
}

} // verus!
