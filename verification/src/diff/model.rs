use vstd::prelude::*;
use crate::model::Category;
use crate::weburl::WebUrl;

verus! {

/// How a page relates between the two reports.
#[derive(Debug, Clone, Copy, PartialEq, Eq, Structural)]
pub enum PageDiffKind {
    /// Present in "after" but not in "before".
    Added,
    /// Present in "before" but not in "after".
    Removed,
    /// Present in both; the score changed.
    Changed,
    /// Present in both; the score is the same.
    Unchanged,
}

/// The score change of one URL.
#[derive(Debug, Clone)]
pub struct PageDiff {
    pub url: WebUrl,
    pub kind: PageDiffKind,
    /// Score in the "before" report (`None` for added pages).
    pub before_score: Option<u8>,
    /// Score in the "after" report (`None` for removed pages).
    pub after_score: Option<u8>,
    /// `after_score - before_score`; 0 where one side is absent.
    pub delta: i16,
}

/// The mathematical content of a [`PageDiff`].
pub struct PageDiffView {
    pub url: Seq<char>,
    pub kind: PageDiffKind,
    pub before_score: Option<u8>,
    pub after_score: Option<u8>,
    pub delta: i16,
}

impl View for PageDiff {
    type V = PageDiffView;

    open spec fn view(&self) -> PageDiffView {
        PageDiffView {
            url: self.url@,
            kind: self.kind,
            before_score: self.before_score,
            after_score: self.after_score,
            delta: self.delta,
        }
    }
}

/// The views of a sequence of page diffs.
pub open spec fn diff_views(v: Seq<PageDiff>) -> Seq<PageDiffView> {
    v.map_values(|d: PageDiff| d@)
}

/// The comparison of two audit reports.
#[derive(Debug, Clone)]
pub struct DiffReport {
    pub before_site_score: u8,
    pub after_site_score: u8,
    /// `after_site_score - before_site_score`.
    pub site_score_delta: i16,
    /// Mean category score change (after − before), for each category that
    /// either report scores, in [`Category::all`] order.
    pub category_deltas: Vec<(Category, i16)>,
    /// One entry per URL of either report.
    pub pages: Vec<PageDiff>,
    pub before_root: WebUrl,
    pub after_root: WebUrl,
}

impl DiffReport {
    /// The mean score change recorded for `cat`, if either report scores it.
    pub fn category_delta(&self, cat: Category) -> (res: Option<i16>)
        ensures
            res == spec_lookup_delta(self.category_deltas@, cat),
    {
        let mut i: usize = 0;
        while i < self.category_deltas.len()
            invariant
                i <= self.category_deltas@.len(),
                forall|k: int| 0 <= k < i ==> self.category_deltas@[k].0 != cat,
            decreases self.category_deltas@.len() - i,
        {
            let (c, d) = self.category_deltas[i];
            if c == cat {
                proof { lemma_lookup_delta_at(self.category_deltas@, cat, i as int); }
                return Some(d);
            }
            i = i + 1;
        }
        proof { lemma_lookup_delta_absent(self.category_deltas@, cat); }
        None
    }
}

/// The first delta recorded for `cat`.
pub open spec fn spec_lookup_delta(entries: Seq<(Category, i16)>, cat: Category) -> Option<i16>
    decreases entries.len(),
{
    if entries.len() == 0 {
        None
    } else if entries[0].0 == cat {
        Some(entries[0].1)
    } else {
        spec_lookup_delta(entries.drop_first(), cat)
    }
}

proof fn lemma_lookup_delta_at(entries: Seq<(Category, i16)>, cat: Category, i: int)
    requires
        0 <= i < entries.len(),
        entries[i].0 == cat,
        forall|k: int| 0 <= k < i ==> entries[k].0 != cat,
    ensures
        spec_lookup_delta(entries, cat) == Some(entries[i].1),
    decreases i,
{
    if i > 0 {
        lemma_lookup_delta_at(entries.drop_first(), cat, i - 1);
    }
}

proof fn lemma_lookup_delta_absent(entries: Seq<(Category, i16)>, cat: Category)
    requires
        forall|k: int| 0 <= k < entries.len() ==> entries[k].0 != cat,
    ensures
        spec_lookup_delta(entries, cat) is None,
    decreases entries.len(),
{
    if entries.len() > 0 {
        lemma_lookup_delta_absent(entries.drop_first(), cat);
    }
}

} // verus!
