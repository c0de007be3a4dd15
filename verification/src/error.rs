//! The errors of an audit.

use vstd::prelude::*;
use crate::text::{append, append_str, decimal, spec_decimal, string_of};

verus! {

/// What went wrong. Errors raised by outside crates are kept as their text.
#[derive(Debug, Clone)]
pub enum SeoError {
    /// An HTTP request failed.
    Fetch { url: String, message: String },
    /// A URL did not parse.
    Url(String),
    /// Something could not be read.
    Parse(String),
    /// The frontier store failed.
    Redis(String),
    /// Reading or writing failed.
    Io(String),
    /// The configuration is not usable.
    Config(String),
    /// A fetch was redirected back to a URL it had visited, or too often.
    RedirectLoop { url: String, hops: usize },
    /// robots.txt forbids the URL.
    RobotsDisallowed(String),
    /// No audit job has this id.
    JobNotFound(String),
}

/// The message of an error.
pub open spec fn spec_error_message(e: SeoError) -> Seq<char> {
    match e {
        SeoError::Fetch { url, message } => "HTTP error fetching "@ + url@ + ": "@ + message@,
        SeoError::Url(m) => "URL parse error: "@ + m@,
        SeoError::Parse(m) => "HTML parse error: "@ + m@,
        SeoError::Redis(m) => "Redis error: "@ + m@,
        SeoError::Io(m) => "IO error: "@ + m@,
        SeoError::Config(m) => "Config error: "@ + m@,
        SeoError::RedirectLoop { url, hops } => "Redirect loop detected at "@ + url@ + " after "@
            + spec_decimal(hops as nat) + " hops"@,
        SeoError::RobotsDisallowed(u) => "Robots.txt disallows "@ + u@,
        SeoError::JobNotFound(id) => "Job not found: "@ + id@,
    }
}

impl SeoError {
    /// The HTTP status an error is answered with: 404 for an unknown job,
    /// 500 otherwise.
    pub fn http_status(&self) -> (res: u16)
        ensures
            res == if *self is JobNotFound { 404u16 } else { 500u16 },
    {
        match self {
            SeoError::JobNotFound(_) => 404,
            _ => 500,
        }
    }

    /// The error's message.
    pub fn message(&self) -> (res: String)
        ensures
            res@ == spec_error_message(*self),
    {
        let mut v: Vec<char> = Vec::new();
        match self {
            SeoError::Fetch { url, message } => {
                append_str(&mut v, "HTTP error fetching ");
                append_str(&mut v, url.as_str());
                append_str(&mut v, ": ");
                append_str(&mut v, message.as_str());
            },
            SeoError::Url(m) => {
                append_str(&mut v, "URL parse error: ");
                append_str(&mut v, m.as_str());
            },
            SeoError::Parse(m) => {
                append_str(&mut v, "HTML parse error: ");
                append_str(&mut v, m.as_str());
            },
            SeoError::Redis(m) => {
                append_str(&mut v, "Redis error: ");
                append_str(&mut v, m.as_str());
            },
            SeoError::Io(m) => {
                append_str(&mut v, "IO error: ");
                append_str(&mut v, m.as_str());
            },
            SeoError::Config(m) => {
                append_str(&mut v, "Config error: ");
                append_str(&mut v, m.as_str());
            },
            SeoError::RedirectLoop { url, hops } => {
                append_str(&mut v, "Redirect loop detected at ");
                append_str(&mut v, url.as_str());
                append_str(&mut v, " after ");
                append(&mut v, decimal(*hops as u64).as_slice());
                append_str(&mut v, " hops");
            },
            SeoError::RobotsDisallowed(u) => {
                append_str(&mut v, "Robots.txt disallows ");
                append_str(&mut v, u.as_str());
            },
            SeoError::JobNotFound(id) => {
                append_str(&mut v, "Job not found: ");
                append_str(&mut v, id.as_str());
            },
        }
        string_of(v.as_slice())
    }
}

} // verus!
