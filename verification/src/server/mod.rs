//! The HTTP server's job model: progress events and the decisions behind its
//! routes.

pub mod progress;
pub mod routes;
