use vstd::prelude::*;
use crate::audit::PageAuditor;
use crate::audit::headings::{spec_headings_audit, HeadingsAuditor};
use crate::audit::https::{spec_https_audit, HttpsAuditor};
use crate::audit::images::{spec_image_findings, ImagesAuditor};
use crate::audit::metadata::{spec_metadata_findings, MetadataAuditor};
use crate::audit::opengraph::{spec_opengraph_audit, OpengraphAuditor};
use crate::audit::redirects::{spec_redirects_audit, RedirectsAuditor};
use crate::model::{finding_views, url_views, Finding, FindingView, PageData};
use crate::parser::dom::{spec_dom_attrs, spec_headings_upto, spec_images, Dom};
use crate::weburl::{spec_url_parse, WebUrl};

verus! {

// ── Page audits ─────────────────────────────────────────────────────────────

/// The findings of the page checks that read only the page, in the order they
/// run: metadata, headings, HTTPS, social tags, images, redirects.
pub open spec fn spec_page_findings(page_url: Seq<char>, hops: nat, source: Seq<char>) -> Seq<FindingView> {
    spec_metadata_findings(page_url, source)
        + spec_headings_audit(spec_headings_upto(source, 6))
        + spec_https_audit(page_url, source)
        + spec_opengraph_audit(source)
        + spec_image_findings(spec_images(spec_dom_attrs(source, "img"@, seq!["src"@, "alt"@])))
        + spec_redirects_audit(hops)
}

/// Runs the page checks on a page whose HTML was parsed into `dom`.
pub fn audit_page(page: &PageData, dom: &Dom) -> (res: Vec<Finding>)
    ensures
        finding_views(res@) == spec_page_findings(page.url@, page.redirect_chain@.len(), dom@),
{
    let mut out = MetadataAuditor.audit(page, dom);
    let mut h = HeadingsAuditor.audit(page, dom);
    let ghost a0 = finding_views(out@);
    let ghost a1 = finding_views(h@);
    out.append(&mut h);
    assert(finding_views(out@) =~= a0 + a1);
    let mut x = HttpsAuditor.audit(page, dom);
    let ghost b0 = finding_views(out@);
    let ghost b1 = finding_views(x@);
    out.append(&mut x);
    assert(finding_views(out@) =~= b0 + b1);
    let mut o = OpengraphAuditor.audit(page, dom);
    let ghost c0 = finding_views(out@);
    let ghost c1 = finding_views(o@);
    out.append(&mut o);
    assert(finding_views(out@) =~= c0 + c1);
    let mut im = ImagesAuditor.audit(page, dom);
    let ghost d0 = finding_views(out@);
    let ghost d1 = finding_views(im@);
    out.append(&mut im);
    assert(finding_views(out@) =~= d0 + d1);
    let mut r = RedirectsAuditor.audit(page, dom);
    let ghost e0 = finding_views(out@);
    let ghost e1 = finding_views(r@);
    out.append(&mut r);
    assert(finding_views(out@) =~= e0 + e1);
    out
}

// ── The page budget ─────────────────────────────────────────────────────────

/// How many pages a crawl has taken on, against its limit. The root counts as
/// the first page.
pub struct PageBudget {
    pub counted: usize,
    pub max: Option<usize>,
}

/// One admission attempt: with a limit, admitted while fewer than the limit
/// are counted (and then counted); without one, always admitted.
pub open spec fn spec_admit(counted: nat, max: Option<usize>) -> (bool, nat) {
    match max {
        None => (true, counted),
        Some(m) => if counted < m { (true, counted + 1) } else { (false, counted) },
    }
}

/// `n` admission attempts in a row: how many were admitted, and the count after.
pub open spec fn spec_admit_run(counted: nat, max: Option<usize>, n: nat) -> (nat, nat)
    decreases n,
{
    if n == 0 {
        (0, counted)
    } else {
        let (k, c) = spec_admit_run(counted, max, (n - 1) as nat);
        let (ok, c2) = spec_admit(c, max);
        (if ok { k + 1 } else { k }, c2)
    }
}

impl PageBudget {
    /// A budget with the root already counted.
    pub fn new(max: Option<usize>) -> (res: PageBudget)
        ensures
            res.counted == 1,
            res.max == max,
    {
        PageBudget { counted: 1, max }
    }

    /// Tries to take on one more page.
    pub fn try_admit(&mut self) -> (res: bool)
        ensures
            final(self).max == old(self).max,
            (res, final(self).counted as nat) == spec_admit(old(self).counted as nat, old(self).max),
    {
        match self.max {
            None => true,
            Some(m) => {
                if self.counted >= m {
                    false
                } else {
                    self.counted = self.counted + 1;
                    true
                }
            },
        }
    }

    /// Gives back a page that was admitted but could not be enqueued.
    pub fn release(&mut self)
        ensures
            final(self).max == old(self).max,
            final(self).counted == if old(self).max is Some && old(self).counted > 0 {
                (old(self).counted - 1) as usize
            } else {
                old(self).counted
            },
    {
        if self.max.is_some() && self.counted > 0 {
            self.counted = self.counted - 1;
        }
    }
}

/// With a limit of `m` pages and the root counted, a run of `n` attempts
/// admits `min(n, m - 1)` children and leaves the count at `min(1 + n, m)`.
pub proof fn lemma_budget_admits_up_to_limit(m: usize, n: nat)
    requires
        m >= 1,
    ensures
        spec_admit_run(1, Some(m), n) == (
            if n < m - 1 { n } else { (m - 1) as nat },
            if 1 + n < m { 1 + n } else { m as nat },
        ),
    decreases n,
{
    if n > 0 {
        lemma_budget_admits_up_to_limit(m, (n - 1) as nat);
    }
}

/// Without a limit every attempt is admitted and nothing is counted.
pub proof fn lemma_budget_unlimited(counted: nat, n: nat)
    ensures
        spec_admit_run(counted, None, n) == (n, counted),
    decreases n,
{
    if n > 0 {
        lemma_budget_unlimited(counted, (n - 1) as nat);
    }
}

// ── A worker's decisions ────────────────────────────────────────────────────

/// What a worker does next with what it took from the frontier.
pub enum WorkerStep {
    /// The queue was empty: wait a little, then see whether the crawl is done.
    Wait,
    /// The entry is unusable: mark it done and move on.
    Skip,
    /// Ask robots.txt whether the URL may be fetched.
    CheckRobots { url: WebUrl, depth: u32 },
    /// Fetch the URL.
    Fetch { url: WebUrl, depth: u32 },
}

/// The step for a dequeued entry: wait when there is none, skip a URL that
/// does not parse, else check robots.txt first when the crawl respects it.
pub fn on_dequeued(entry: Option<(u32, String)>, respect_robots: bool) -> (res: WorkerStep)
    ensures
        match entry {
            None => res is Wait,
            Some((d, s)) => match spec_url_parse(s@) {
                Err(_) => res is Skip,
                Ok(u) => if respect_robots {
                    res matches WorkerStep::CheckRobots { url, depth } && url@ == u && depth == d
                } else {
                    res matches WorkerStep::Fetch { url, depth } && url@ == u && depth == d
                },
            },
        },
{
    match entry {
        None => WorkerStep::Wait,
        Some((d, s)) => match WebUrl::parse(s.as_str()) {
            Err(_) => WorkerStep::Skip,
            Ok(u) => if respect_robots {
                WorkerStep::CheckRobots { url: u, depth: d }
            } else {
                WorkerStep::Fetch { url: u, depth: d }
            },
        },
    }
}

/// The step after asking robots.txt: fetch when allowed, else skip.
pub fn after_robots(allowed: bool, url: WebUrl, depth: u32) -> (res: WorkerStep)
    ensures
        allowed ==> (res matches WorkerStep::Fetch { url: u, depth: d } && u@ == url@ && d == depth),
        !allowed ==> res is Skip,
{
    if allowed {
        WorkerStep::Fetch { url, depth }
    } else {
        WorkerStep::Skip
    }
}

/// Whether a waiting worker stops: only when the frontier reports the crawl
/// complete (a failed check keeps it going).
pub fn should_stop(complete: Option<bool>) -> (res: bool)
    ensures
        res == (complete == Some(true)),
{
    match complete {
        Some(v) => v,
        None => false,
    }
}

/// A fetched page placed at the depth it was found at.
pub fn with_depth(page: PageData, depth: u32) -> (res: PageData)
    ensures
        res.depth == depth,
        res.url@ == page.url@,
        res.status == page.status,
        url_views(res.redirect_chain@) == url_views(page.redirect_chain@),
        res.html@ == page.html@,
        res.headers == page.headers,
{
    PageData { depth, ..page }
}

/// The depth of a page's children, when they are to be crawled: only below
/// the maximum depth.
pub fn child_depth(depth: u32, max_depth: u32) -> (res: Option<u32>)
    ensures
        res == if depth < max_depth { Some((depth + 1) as u32) } else { None::<u32> },
{
    if depth < max_depth {
        Some(depth + 1)
    } else {
        None
    }
}

} // verus!
