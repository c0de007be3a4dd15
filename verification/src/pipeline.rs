//! The decisions of an audit run that do not touch the network.

use vstd::prelude::*;
use crate::config::CrawlConfig;
use crate::error::SeoError;
use crate::model::{finding, finding_views, spec_finding, AuditReport, Category, Finding, PageData, PageReport, Severity};
use crate::score::{page_scores, score_page, score_site, spec_category_scores, spec_page_score, spec_site_score};
use crate::text::{append, append_str, decimal, signed_decimal, spec_decimal, spec_signed_decimal, string_of};
use crate::weburl::{spec_url_parse, WebUrl};

verus! {

/// The rate used per host: the configured one, or 1 when it is 0.
pub fn effective_rate(rate_per_host: u32) -> (res: u32)
    ensures
        res == if rate_per_host == 0 { 1 } else { rate_per_host },
        res > 0,
{
    if rate_per_host == 0 { 1 } else { rate_per_host }
}

/// The report of a site whose root robots.txt forbids: no pages, score 100.
pub fn empty_report(root: WebUrl, crawled_at: String) -> (res: AuditReport)
    ensures
        res.root@ == root@,
        res.pages@.len() == 0,
        res.site_score == 100,
        res.crawled_at@ == crawled_at@,
{
    AuditReport { root, pages: Vec::new(), site_score: 100, crawled_at }
}

/// The report of a crawl: its pages and their mean score.
pub fn finish_report(root: WebUrl, pages: Vec<PageReport>, crawled_at: String) -> (res: AuditReport)
    ensures
        res.root@ == root@,
        res.pages@ == pages@,
        res.site_score as nat == spec_site_score(page_scores(pages@)),
        res.crawled_at@ == crawled_at@,
{
    let site_score = score_site(pages.as_slice());
    AuditReport { root, pages, site_score, crawled_at }
}

/// The message of the finding for a redirect loop.
pub open spec fn spec_loop_message(url: Seq<char>, hops: usize) -> Seq<char> {
    "Redirect loop detected at "@ + url + " after "@ + spec_decimal(hops as nat) + " hops"@
}

/// What the report of a redirect loop at `url` after `hops` hops is: one page,
/// the loop's URL, scored from one critical `redirects.loop` finding; or the
/// URL error when `url` does not parse.
pub open spec fn spec_loop_report(
    url: Seq<char>,
    hops: usize,
    root: Seq<char>,
    crawled_at: Seq<char>,
    res: Result<AuditReport, SeoError>,
) -> bool {
    match res {
        Ok(r) => {
            &&& spec_url_parse(url) matches Ok(u) && r.pages@.len() == 1 && r.pages@[0].url@ == u
            &&& finding_views(r.pages@[0].findings@) == seq![spec_finding("redirects.loop"@, Category::Links,
                Severity::Critical, 40, spec_loop_message(url, hops))]
            &&& r.pages@[0].category_scores@ == spec_category_scores(finding_views(r.pages@[0].findings@))
            &&& r.pages@[0].score as nat == spec_page_score(finding_views(r.pages@[0].findings@))
            &&& r.site_score == r.pages@[0].score
            &&& r.root@ == root
            &&& r.crawled_at@ == crawled_at
        },
        Err(e) => spec_url_parse(url) matches Err(m) && e matches SeoError::Url(t) && t@ == m,
    }
}

/// The report of a root URL whose fetch ran into a redirect loop: one page,
/// the loop's URL, with one critical finding.
pub fn redirect_loop_report(url: &str, hops: usize, root: WebUrl, crawled_at: String) -> (res: Result<AuditReport, SeoError>)
    ensures
        spec_loop_report(url@, hops, root@, crawled_at@, res),
{
    let parsed = match WebUrl::parse(url) {
        Ok(u) => u,
        Err(e) => return Err(SeoError::Url(e)),
    };
    let mut m: Vec<char> = Vec::new();
    append_str(&mut m, "Redirect loop detected at ");
    append_str(&mut m, url);
    append_str(&mut m, " after ");
    append(&mut m, decimal(hops as u64).as_slice());
    append_str(&mut m, " hops");
    let f = finding("redirects.loop", Category::Links, Severity::Critical, 40, string_of(m.as_slice()));
    let mut fs: Vec<Finding> = Vec::new();
    fs.push(f);
    assert(finding_views(fs@) =~= seq![spec_finding("redirects.loop"@, Category::Links,
        Severity::Critical, 40, spec_loop_message(url@, hops))]);
    let report = score_page(parsed, fs);
    let mut pages: Vec<PageReport> = Vec::new();
    pages.push(report);
    let site_score = score_site(pages.as_slice());
    assert(page_scores(pages@) =~= seq![pages@[0].score]);
    assert(crate::score::spec_sum_u8(seq![pages@[0].score]) == pages@[0].score) by {
        let s = seq![pages@[0].score];
        assert(s.drop_last() =~= Seq::<u8>::empty());
        assert(crate::score::spec_sum_u8(s.drop_last()) == 0);
        assert(s.last() == pages@[0].score);
    }
    Ok(AuditReport { root, pages, site_score, crawled_at })
}

/// The frontier store of a crawl deeper than the root: one must be configured.
pub fn redis_url_for(config: &CrawlConfig) -> (res: Result<String, SeoError>)
    ensures
        match config.redis_url {
            Some(u) => res matches Ok(r) && r@ == u@,
            None => res matches Err(SeoError::Config(m)) && m@ == "--redis-url is required when depth > 0"@,
        },
{
    match &config.redis_url {
        Some(u) => Ok(u.clone()),
        None => Err(SeoError::Config("--redis-url is required when depth > 0".to_owned())),
    }
}

/// The frontier's job id for a crawl started at `millis` (Unix time in ms).
pub fn job_id_for(millis: i64) -> (res: String)
    ensures
        res@ == "seo-rs-"@ + spec_signed_decimal(millis as int),
{
    let mut v: Vec<char> = Vec::new();
    append_str(&mut v, "seo-rs-");
    append(&mut v, signed_decimal(millis).as_slice());
    string_of(v.as_slice())
}

/// What an audit run does first.
#[derive(Debug)]
pub enum RunAction {
    /// A single page: ask robots.txt about the root, then fetch it.
    CheckRootRobots,
    /// A single page, robots.txt ignored: fetch the root.
    FetchRoot,
    /// A crawl, with its frontier in this Redis store.
    Crawl { redis_url: String },
}

/// The first step of a run: depth 0 is a single page (robots.txt checked
/// first unless ignored); a deeper crawl needs a Redis URL.
pub fn run_start(config: &CrawlConfig) -> (res: Result<RunAction, SeoError>)
    ensures
        config.depth == 0 ==> (if config.respect_robots {
            res matches Ok(RunAction::CheckRootRobots)
        } else {
            res matches Ok(RunAction::FetchRoot)
        }),
        config.depth > 0 ==> match config.redis_url {
            Some(u) => res matches Ok(RunAction::Crawl { redis_url }) && redis_url@ == u@,
            None => res matches Err(SeoError::Config(m)) && m@ == "--redis-url is required when depth > 0"@,
        },
{
    if config.depth == 0 {
        if config.respect_robots {
            Ok(RunAction::CheckRootRobots)
        } else {
            Ok(RunAction::FetchRoot)
        }
    } else {
        match redis_url_for(config) {
            Ok(u) => Ok(RunAction::Crawl { redis_url: u }),
            Err(e) => Err(e),
        }
    }
}

/// After asking robots.txt about the root of a single-page run: go on when
/// allowed, otherwise the run ends with the empty report.
pub fn after_root_robots(allowed: bool, root: WebUrl, crawled_at: String) -> (res: Option<AuditReport>)
    ensures
        allowed <==> res is None,
        res matches Some(r) ==> r.pages@.len() == 0 && r.site_score == 100 && r.root@ == root@
            && r.crawled_at@ == crawled_at@,
{
    if allowed {
        None
    } else {
        Some(empty_report(root, crawled_at))
    }
}

/// What fetching the root of a single-page run leads to.
pub enum RootStep {
    /// Audit the fetched page.
    Audit(PageData),
    /// The run ends with this report.
    Done(AuditReport),
}

/// After fetching the root of a single-page run: a fetched page is audited; a
/// redirect loop ends the run with the loop's report; any other error ends it
/// with that error.
pub fn after_root_fetch(fetched: Result<PageData, SeoError>, root: WebUrl, crawled_at: String) -> (res: Result<RootStep, SeoError>)
    ensures
        match fetched {
            Ok(p) => res matches Ok(RootStep::Audit(q)) && q == p,
            Err(SeoError::RedirectLoop { url, hops }) => match res {
                Ok(RootStep::Done(r)) => spec_loop_report(url@, hops, root@, crawled_at@, Ok(r)),
                Ok(RootStep::Audit(_)) => false,
                Err(e) => spec_loop_report(url@, hops, root@, crawled_at@, Err(e)),
            },
            Err(e) => res == Err::<RootStep, SeoError>(e),
        },
{
    match fetched {
        Ok(p) => Ok(RootStep::Audit(p)),
        Err(SeoError::RedirectLoop { url, hops }) => match redirect_loop_report(url.as_str(), hops, root, crawled_at) {
            Ok(r) => Ok(RootStep::Done(r)),
            Err(e) => Err(e),
        },
        Err(e) => Err(e),
    }
}

/// Where a finished report goes.
#[derive(Debug, PartialEq, Eq, Structural)]
pub enum EmitPlan {
    /// Only the site score, on standard output.
    ScoreOnly,
    /// JSON to the output file; the terminal report on standard output.
    JsonToFile,
    /// JSON on standard output; the terminal report on standard error.
    JsonToStdout,
}

/// Where a report goes: quiet without an output file prints the score alone;
/// an output file takes the JSON; otherwise JSON goes to standard output.
pub fn emit_plan(quiet: bool, has_output_file: bool) -> (res: EmitPlan)
    ensures
        res == if quiet && !has_output_file {
            EmitPlan::ScoreOnly
        } else if has_output_file {
            EmitPlan::JsonToFile
        } else {
            EmitPlan::JsonToStdout
        },
{
    if quiet && !has_output_file {
        EmitPlan::ScoreOnly
    } else if has_output_file {
        EmitPlan::JsonToFile
    } else {
        EmitPlan::JsonToStdout
    }
}

} // verus!
