//! The settings of an audit.

use vstd::prelude::*;
use crate::weburl::WebUrl;

verus! {

/// How an audit runs.
#[derive(Debug, Clone)]
pub struct CrawlConfig {
    pub root: WebUrl,
    pub depth: u32,
    pub concurrency: usize,
    pub rate_per_host: u32,
    pub redis_url: Option<String>,
    pub user_agent: String,
    pub timeout_secs: u64,
    pub max_pages: Option<usize>,
    /// Wall-clock limit of the whole crawl; when it passes, the pages done so
    /// far are reported.
    pub global_timeout_secs: Option<u64>,
    pub respect_robots: bool,
    pub validate_sitemap: bool,
    pub quiet: bool,
    pub no_color: bool,
    pub verbose: bool,
    /// Where to write the JSON report, if anywhere.
    pub output_json: Option<String>,
    pub check_external_links: bool,
}

impl CrawlConfig {
    /// The User-Agent sent unless another is configured.
    pub const DEFAULT_UA: &'static str = "sandslash/0.1.0 (+https://github.com/leotonezi/sandslash)";
}

} // verus!
