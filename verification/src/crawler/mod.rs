//! Crawling a site: the frontier of URLs to visit, robots.txt gating, and the
//! decisions of a crawl worker.

pub mod engine;
pub mod frontier;
pub mod robots_gate;
