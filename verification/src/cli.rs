//! The command-line arguments of an audit and of a comparison.

use vstd::prelude::*;
use crate::config::CrawlConfig;
use crate::diff::OutputFormat;
use crate::error::SeoError;
use crate::weburl::{spec_url_parse, WebUrl};

verus! {

/// The arguments of `sandslash audit`.
#[derive(Debug, Clone)]
pub struct AuditArgs {
    /// The URL to audit.
    pub url: String,
    /// Crawl depth (0 = the page alone).
    pub depth: u32,
    /// Concurrent workers.
    pub concurrency: usize,
    /// Requests per second per host.
    pub rate: u32,
    pub redis_url: Option<String>,
    pub user_agent: Option<String>,
    /// Request timeout in seconds.
    pub timeout: u64,
    pub max_pages: Option<usize>,
    pub global_timeout: Option<u64>,
    pub ignore_robots: bool,
    pub validate_sitemap: bool,
    pub quiet: bool,
    pub no_color: bool,
    /// Where to write the JSON report.
    pub output: Option<String>,
    pub check_external_links: bool,
    pub verbose: bool,
}

/// The arguments of `sandslash diff`.
#[derive(Debug, Clone)]
pub struct DiffArgs {
    /// The "before" report file.
    pub before: String,
    /// The "after" report file.
    pub after: String,
    pub output: Option<OutputFormat>,
    pub no_color: bool,
}

impl AuditArgs {
    /// The audit's settings: the URL must parse; the User-Agent defaults to
    /// [`CrawlConfig::DEFAULT_UA`]; robots.txt is respected unless ignored.
    pub fn into_config(self) -> (res: Result<CrawlConfig, SeoError>)
        ensures
            match res {
                Ok(c) => {
                    &&& spec_url_parse(self.url@) == Ok::<Seq<char>, Seq<char>>(c.root@)
                    &&& c.depth == self.depth
                    &&& c.concurrency == self.concurrency
                    &&& c.rate_per_host == self.rate
                    &&& c.redis_url == self.redis_url
                    &&& c.user_agent@ == match self.user_agent {
                        Some(u) => u@,
                        None => CrawlConfig::DEFAULT_UA@,
                    }
                    &&& c.timeout_secs == self.timeout
                    &&& c.max_pages == self.max_pages
                    &&& c.global_timeout_secs == self.global_timeout
                    &&& c.respect_robots == !self.ignore_robots
                    &&& c.validate_sitemap == self.validate_sitemap
                    &&& c.quiet == self.quiet
                    &&& c.no_color == self.no_color
                    &&& c.verbose == self.verbose
                    &&& c.output_json == self.output
                    &&& c.check_external_links == self.check_external_links
                },
                Err(e) => spec_url_parse(self.url@) matches Err(m) && e matches SeoError::Url(t) && t@ == m,
            },
    {
        let root = match WebUrl::parse(self.url.as_str()) {
            Ok(u) => u,
            Err(e) => return Err(SeoError::Url(e)),
        };
        let user_agent = match self.user_agent {
            Some(u) => u,
            None => CrawlConfig::DEFAULT_UA.to_owned(),
        };
        Ok(CrawlConfig {
            root,
            depth: self.depth,
            concurrency: self.concurrency,
            rate_per_host: self.rate,
            redis_url: self.redis_url,
            user_agent,
            timeout_secs: self.timeout,
            max_pages: self.max_pages,
            global_timeout_secs: self.global_timeout,
            respect_robots: !self.ignore_robots,
            validate_sitemap: self.validate_sitemap,
            quiet: self.quiet,
            no_color: self.no_color,
            verbose: self.verbose,
            output_json: self.output,
            check_external_links: self.check_external_links,
        })
    }
}

} // verus!
