use vstd::prelude::*;
use crate::config::CrawlConfig;
use crate::error::SeoError;
use crate::server::progress::ProgressEvent;
use crate::text::{append, append_str, decimal, spec_decimal, string_of};
use crate::weburl::{spec_url_parse, WebUrl};

verus! {

/// The body of a request to start an audit.
#[derive(Debug, Clone)]
pub struct StartAuditRequest {
    pub url: String,
    pub depth: Option<u32>,
    pub concurrency: Option<usize>,
    pub max_pages: Option<usize>,
}

/// The settings of an audit started over HTTP: depth 1 and 4 workers unless
/// asked otherwise, 2 requests per second per host, the default User-Agent,
/// robots.txt respected, quiet and without color. The URL must parse.
pub fn start_config(req: &StartAuditRequest) -> (res: Result<CrawlConfig, SeoError>)
    ensures
        match res {
            Ok(c) => {
                &&& spec_url_parse(req.url@) == Ok::<Seq<char>, Seq<char>>(c.root@)
                &&& c.depth == match req.depth { Some(d) => d, None => 1u32 }
                &&& c.concurrency == match req.concurrency { Some(n) => n, None => 4usize }
                &&& c.rate_per_host == 2
                &&& c.redis_url is None
                &&& c.user_agent@ == CrawlConfig::DEFAULT_UA@
                &&& c.timeout_secs == 30
                &&& c.max_pages == req.max_pages
                &&& c.global_timeout_secs is None
                &&& c.respect_robots
                &&& !c.validate_sitemap
                &&& c.quiet
                &&& c.no_color
                &&& !c.verbose
                &&& c.output_json is None
                &&& !c.check_external_links
            },
            Err(e) => spec_url_parse(req.url@) matches Err(m) && e matches SeoError::Url(t) && t@ == m,
        },
{
    let root = match WebUrl::parse(req.url.as_str()) {
        Ok(u) => u,
        Err(e) => return Err(SeoError::Url(e)),
    };
    Ok(CrawlConfig {
        root,
        depth: match req.depth { Some(d) => d, None => 1 },
        concurrency: match req.concurrency { Some(n) => n, None => 4 },
        rate_per_host: 2,
        redis_url: None,
        user_agent: CrawlConfig::DEFAULT_UA.to_owned(),
        timeout_secs: 30,
        max_pages: req.max_pages,
        global_timeout_secs: None,
        respect_robots: true,
        validate_sitemap: false,
        quiet: true,
        no_color: true,
        verbose: false,
        output_json: None,
        check_external_links: false,
    })
}

/// How long (in seconds) a finished or running job is kept.
pub const JOB_TTL_SECS: u64 = 600;

/// Whether a job of this age (in seconds) is kept.
pub fn job_is_live(age_secs: u64) -> (res: bool)
    ensures
        res == (age_secs < JOB_TTL_SECS),
{
    age_secs < JOB_TTL_SECS
}

/// What the broadcast of a job delivers to a subscriber.
pub enum StreamItem {
    Event(ProgressEvent),
    /// The subscriber fell this many events behind.
    Lagged(u64),
}

/// What a subscriber is sent.
pub enum StreamOut {
    Event(ProgressEvent),
    /// A comment line.
    Comment(String),
}

/// One step of a subscription: nothing more once a terminal event went out;
/// otherwise the event (noting when it is terminal) or a comment saying how
/// many events were missed.
pub fn scan_step(done: bool, item: StreamItem) -> (res: (Option<StreamOut>, bool))
    ensures
        done ==> res.0 is None && res.1,
        !done ==> match item {
            StreamItem::Event(e) => (res.0 matches Some(StreamOut::Event(f)) && f == e)
                && res.1 == (e is Done || e is Error),
            StreamItem::Lagged(n) => (res.0 matches Some(StreamOut::Comment(c))
                && c@ == "lagged "@ + spec_decimal(n as nat) + " frames"@) && !res.1,
        },
{
    if done {
        return (None, true);
    }
    match item {
        StreamItem::Event(e) => {
            let terminal = e.is_terminal();
            (Some(StreamOut::Event(e)), terminal)
        },
        StreamItem::Lagged(n) => {
            let mut v: Vec<char> = Vec::new();
            append_str(&mut v, "lagged ");
            append(&mut v, decimal(n).as_slice());
            append_str(&mut v, " frames");
            (Some(StreamOut::Comment(string_of(v.as_slice()))), false)
        },
    }
}

/// What a new subscriber is sent first: the job's `Started` event, then its
/// terminal event if the job already ended (and then nothing more).
pub fn replay(job_id: &str, root: &str, terminal: Option<ProgressEvent>) -> (res: (Vec<ProgressEvent>, bool))
    ensures
        res.0@.len() == if terminal is Some { 2int } else { 1int },
        res.0@[0] matches ProgressEvent::Started { job_id: j, root: r } && j@ == job_id@ && r@ == root@,
        terminal matches Some(t) ==> res.0@[1] == t,
        res.1 == terminal is Some,
{
    let mut v: Vec<ProgressEvent> = Vec::new();
    v.push(ProgressEvent::Started { job_id: job_id.to_owned(), root: root.to_owned() });
    match terminal {
        Some(t) => {
            v.push(t);
            (v, true)
        },
        None => (v, false),
    }
}

} // verus!
