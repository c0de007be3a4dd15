//! The checks run on each page and on the site as a whole.

pub mod canonical;
pub mod headings;
pub mod https;
pub mod images;
pub mod js_rendered;
pub mod links;
pub mod metadata;
pub mod opengraph;
pub mod redirects;
pub mod robots;
pub mod sitemap;
pub mod structured_data;

use vstd::prelude::*;
use crate::model::{Category, Finding, PageData};
use crate::parser::Dom;
use crate::text::{append, append_str, decimal, spec_decimal, string_of};

pub use crate::model::finding;

verus! {

/// A check that reads one page.
pub trait PageAuditor {
    /// The check's identifier.
    fn id(&self) -> &'static str;

    /// The category its findings fall in.
    fn category(&self) -> Category;

    /// The findings for `page`, whose HTML was parsed into `dom`.
    fn audit(&self, page: &PageData, dom: &Dom) -> Vec<Finding>;
}

/// `prefix`, the decimal form of `n`, then `suffix`.
pub fn count_message(prefix: &str, n: usize, suffix: &str) -> (res: String)
    ensures
        res@ == prefix@ + spec_decimal(n as nat) + suffix@,
{
    let mut v: Vec<char> = Vec::new();
    append_str(&mut v, prefix);
    append(&mut v, decimal(n as u64).as_slice());
    append_str(&mut v, suffix);
    string_of(v.as_slice())
}

/// `prefix` followed by `x`.
pub fn text_message(prefix: &str, x: &str) -> (res: String)
    ensures
        res@ == prefix@ + x@,
{
    let mut v: Vec<char> = Vec::new();
    append_str(&mut v, prefix);
    append_str(&mut v, x);
    string_of(v.as_slice())
}

} // verus!
