//! Fetching pages: decoding bodies, following redirects, retrying, pacing.

pub mod client;
pub mod rate_limiter;
