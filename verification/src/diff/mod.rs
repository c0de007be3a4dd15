//! Comparing two audit reports of a site.

pub mod compute;
pub mod model;
pub mod render;

use vstd::prelude::*;

verus! {

/// Output format of a report comparison.
#[derive(Debug, Clone, Copy, PartialEq, Eq, Structural)]
pub enum OutputFormat {
    /// Human-readable text (the default).
    Text,
    /// Machine-readable JSON.
    Json,
}

} // verus!
