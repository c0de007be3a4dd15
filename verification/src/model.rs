use vstd::prelude::*;
use std::collections::HashMap;
use crate::weburl::WebUrl;
use crate::text::spec_no_escape;

verus! {

/// Response headers, keyed by lowercased header name.
pub type Headers = HashMap<String, String>;

/// How serious a finding is.
#[derive(Debug, Clone, Copy, PartialEq, Eq, Hash, Structural)]
pub enum Severity {
    Critical,
    Warning,
    Info,
}

/// The scoring category a finding belongs to.
#[derive(Debug, Clone, Copy, PartialEq, Eq, Hash, Structural)]
pub enum Category {
    Metadata,
    SocialTags,
    Structure,
    Links,
    Media,
    Crawlability,
    Security,
}

/// The seven categories, in the order reports list them.
pub open spec fn spec_all_categories() -> Seq<Category> {
    seq![
        Category::Metadata,
        Category::SocialTags,
        Category::Structure,
        Category::Links,
        Category::Media,
        Category::Crawlability,
        Category::Security,
    ]
}

/// The position of a category in [`spec_all_categories`].
pub open spec fn spec_category_index(c: Category) -> int {
    match c {
        Category::Metadata => 0,
        Category::SocialTags => 1,
        Category::Structure => 2,
        Category::Links => 3,
        Category::Media => 4,
        Category::Crawlability => 5,
        Category::Security => 6,
    }
}

/// The weight (in percent) of each category in the page score.
pub open spec fn spec_weight(c: Category) -> nat {
    match c {
        Category::Metadata => 20,
        Category::Crawlability => 20,
        Category::Structure => 15,
        Category::Links => 15,
        Category::Security => 15,
        Category::Media => 10,
        Category::SocialTags => 5,
    }
}

impl Category {
    /// All seven categories.
    pub fn all() -> (res: Vec<Category>)
        ensures
            res@ == spec_all_categories(),
    {
        let mut v: Vec<Category> = Vec::new();
        v.push(Category::Metadata);
        v.push(Category::SocialTags);
        v.push(Category::Structure);
        v.push(Category::Links);
        v.push(Category::Media);
        v.push(Category::Crawlability);
        v.push(Category::Security);
        assert(v@ =~= spec_all_categories());
        v
    }

    /// The category's weight in percent.
    pub fn weight(self) -> (w: u8)
        ensures
            w == spec_weight(self),
    {
        match self {
            Category::Metadata => 20,
            Category::Crawlability => 20,
            Category::Structure => 15,
            Category::Links => 15,
            Category::Security => 15,
            Category::Media => 10,
            Category::SocialTags => 5,
        }
    }

    /// The category's name as written in reports (its `Debug` form).
    pub fn name(self) -> (res: &'static str)
        ensures
            res@ == spec_category_name(self),
    {
        match self {
            Category::Metadata => "Metadata",
            Category::SocialTags => "SocialTags",
            Category::Structure => "Structure",
            Category::Links => "Links",
            Category::Media => "Media",
            Category::Crawlability => "Crawlability",
            Category::Security => "Security",
        }
    }
}

pub open spec fn spec_category_name(c: Category) -> Seq<char> {
    match c {
        Category::Metadata => "Metadata"@,
        Category::SocialTags => "SocialTags"@,
        Category::Structure => "Structure"@,
        Category::Links => "Links"@,
        Category::Media => "Media"@,
        Category::Crawlability => "Crawlability"@,
        Category::Security => "Security"@,
    }
}

/// Category names hold no escape character.
pub proof fn lemma_category_name_no_escape(c: Category)
    ensures
        spec_no_escape(spec_category_name(c)),
{
    reveal_strlit("Metadata");
    reveal_strlit("SocialTags");
    reveal_strlit("Structure");
    reveal_strlit("Links");
    reveal_strlit("Media");
    reveal_strlit("Crawlability");
    reveal_strlit("Security");
}

/// The seven weights add up to 100.
pub proof fn lemma_weights_sum_to_100()
    ensures
        spec_weight(Category::Metadata) + spec_weight(Category::SocialTags)
            + spec_weight(Category::Structure) + spec_weight(Category::Links)
            + spec_weight(Category::Media) + spec_weight(Category::Crawlability)
            + spec_weight(Category::Security) == 100,
{
}

/// Every category is listed exactly once by [`Category::all`].
pub proof fn lemma_all_categories_listed_once(c: Category)
    ensures
        0 <= spec_category_index(c) < 7,
        spec_all_categories()[spec_category_index(c)] == c,
        forall|i: int| 0 <= i < 7 && spec_all_categories()[i] == c ==> i == spec_category_index(c),
{
}

/// No category occurs twice among the keys of a list of (category, value)
/// entries.
pub open spec fn spec_keys_distinct<V>(entries: Seq<(Category, V)>) -> bool {
    forall|i: int, j: int| 0 <= i < j < entries.len() ==> (#[trigger] entries[i]).0 != (#[trigger] entries[j]).0
}

/// One result of an audit check.
#[derive(Debug, Clone)]
pub struct Finding {
    pub check_id: String,
    pub category: Category,
    pub severity: Severity,
    pub message: String,
    pub penalty: u8,
}

/// The mathematical content of a finding.
pub struct FindingView {
    pub check_id: Seq<char>,
    pub category: Category,
    pub severity: Severity,
    pub message: Seq<char>,
    pub penalty: u8,
}

impl View for Finding {
    type V = FindingView;

    open spec fn view(&self) -> FindingView {
        FindingView {
            check_id: self.check_id@,
            category: self.category,
            severity: self.severity,
            message: self.message@,
            penalty: self.penalty,
        }
    }
}

/// The views of a sequence of findings.
pub open spec fn finding_views(v: Seq<Finding>) -> Seq<FindingView> {
    v.map_values(|f: Finding| f@)
}

/// A finding with the given fields.
pub open spec fn spec_finding(
    check_id: Seq<char>,
    category: Category,
    severity: Severity,
    penalty: u8,
    message: Seq<char>,
) -> FindingView {
    FindingView { check_id, category, severity, message, penalty }
}

/// Builds a finding.
pub fn finding(
    check_id: &str,
    category: Category,
    severity: Severity,
    penalty: u8,
    message: String,
) -> (res: Finding)
    ensures
        res@ == spec_finding(check_id@, category, severity, penalty, message@),
{
    Finding { check_id: check_id.to_owned(), category, severity, message, penalty }
}

/// A fetched page.
#[derive(Debug, Clone)]
pub struct PageData {
    pub url: WebUrl,
    pub status: u16,
    pub redirect_chain: Vec<WebUrl>,
    pub html: String,
    pub headers: Headers,
    pub depth: u32,
}

/// The views of a sequence of URLs.
pub open spec fn url_views(v: Seq<WebUrl>) -> Seq<Seq<char>> {
    v.map_values(|u: WebUrl| u@)
}

/// The audit result for one page.
#[derive(Debug, Clone)]
pub struct PageReport {
    pub url: WebUrl,
    pub findings: Vec<Finding>,
    /// Score of each category, one entry per category in [`Category::all`] order.
    pub category_scores: Vec<(Category, u8)>,
    pub score: u8,
}

impl PageReport {
    /// The score recorded for `cat`, if any.
    pub fn category_score(&self, cat: Category) -> (res: Option<u8>)
        ensures
            res == spec_lookup_score(self.category_scores@, cat),
    {
        let mut i: usize = 0;
        assert(self.category_scores@.skip(0) =~= self.category_scores@);
        while i < self.category_scores.len()
            invariant
                i <= self.category_scores@.len(),
                spec_lookup_score(self.category_scores@, cat)
                    == spec_lookup_score(self.category_scores@.skip(i as int), cat),
            decreases self.category_scores@.len() - i,
        {
            let (c, s) = self.category_scores[i];
            assert(self.category_scores@.skip(i as int).drop_first()
                =~= self.category_scores@.skip(i + 1));
            if c == cat {
                return Some(s);
            }
            i = i + 1;
        }
        None
    }
}

/// The first score recorded for `cat` in a list of (category, score) entries.
pub open spec fn spec_lookup_score(entries: Seq<(Category, u8)>, cat: Category) -> Option<u8>
    decreases entries.len(),
{
    if entries.len() == 0 {
        None
    } else if entries[0].0 == cat {
        Some(entries[0].1)
    } else {
        spec_lookup_score(entries.drop_first(), cat)
    }
}

/// The result of auditing a site.
#[derive(Debug, Clone)]
pub struct AuditReport {
    pub root: WebUrl,
    pub pages: Vec<PageReport>,
    pub site_score: u8,
    pub crawled_at: String,
}

} // verus!
