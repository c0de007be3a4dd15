use vstd::prelude::*;
use crate::model::{
    Category, Finding, FindingView, PageReport, finding_views, spec_all_categories,
    spec_category_index, spec_keys_distinct, spec_weight,
};
use crate::weburl::WebUrl;

verus! {

/// Total penalty of the findings in category `c`.
pub open spec fn spec_penalty_sum(fs: Seq<FindingView>, c: Category) -> nat
    decreases fs.len(),
{
    if fs.len() == 0 {
        0
    } else {
        spec_penalty_sum(fs.drop_last(), c) + if fs.last().category == c {
            fs.last().penalty as nat
        } else {
            0
        }
    }
}

/// A category's score: 100 less its penalties, never below 0.
pub open spec fn spec_category_score(fs: Seq<FindingView>, c: Category) -> nat {
    if spec_penalty_sum(fs, c) >= 100 {
        0
    } else {
        (100 - spec_penalty_sum(fs, c)) as nat
    }
}

/// Σ category score × category weight, over the seven categories.
pub open spec fn spec_weighted_total(fs: Seq<FindingView>) -> nat {
    spec_category_score(fs, Category::Metadata) * 20
        + spec_category_score(fs, Category::SocialTags) * 5
        + spec_category_score(fs, Category::Structure) * 15
        + spec_category_score(fs, Category::Links) * 15
        + spec_category_score(fs, Category::Media) * 10
        + spec_category_score(fs, Category::Crawlability) * 20
        + spec_category_score(fs, Category::Security) * 15
}

/// The page score: the weighted mean of the category scores, rounded half up.
pub open spec fn spec_page_score(fs: Seq<FindingView>) -> nat {
    (spec_weighted_total(fs) + 50) / 100
}

/// The (category, score) entries of a page, in [`Category::all`] order.
pub open spec fn spec_category_scores(fs: Seq<FindingView>) -> Seq<(Category, u8)> {
    spec_all_categories().map_values(|c: Category| (c, spec_category_score(fs, c) as u8))
}

/// The penalty sum, capped at 100.
pub open spec fn spec_capped_sum(fs: Seq<FindingView>, c: Category) -> nat {
    if spec_penalty_sum(fs, c) >= 100 { 100 } else { spec_penalty_sum(fs, c) }
}

/// Each category has one score in a page's category scores.
pub proof fn lemma_category_scores_distinct(fs: Seq<FindingView>)
    ensures
        spec_keys_distinct(spec_category_scores(fs)),
{
    let s = spec_category_scores(fs);
    assert forall|i: int, j: int| 0 <= i < j < s.len() implies (#[trigger] s[i]).0 != (#[trigger] s[j]).0 by {
        assert(s[i].0 == spec_all_categories()[i]);
        assert(s[j].0 == spec_all_categories()[j]);
    }
}

/// Scores a page from its findings.
pub fn score_page(url: WebUrl, findings: Vec<Finding>) -> (res: PageReport)
    ensures
        res.url@ == url@,
        finding_views(res.findings@) == finding_views(findings@),
        res.category_scores@ == spec_category_scores(finding_views(findings@)),
        spec_keys_distinct(res.category_scores@),
        res.score as nat == spec_page_score(finding_views(findings@)),
{
    proof { lemma_category_scores_distinct(finding_views(findings@)); }
    let ghost fs = finding_views(findings@);
    let mut acc: Vec<u64> = Vec::new();
    let mut k: usize = 0;
    while k < 7
        invariant
            k <= 7,
            acc@.len() == k,
            forall|j: int| 0 <= j < k ==> acc@[j] == 0,
        decreases 7 - k,
    {
        acc.push(0);
        k = k + 1;
    }
    assert(fs.take(0) =~= Seq::<FindingView>::empty());
    let n = findings.len();
    for i in 0..n
        invariant
            n == findings@.len(),
            fs == finding_views(findings@),
            acc@.len() == 7,
            forall|c: Category| #[trigger] acc@[spec_category_index(c)] as nat
                == spec_capped_sum(fs.take(i as int), c),
    {
        let f = &findings[i];
        let idx: usize = match f.category {
            Category::Metadata => 0,
            Category::SocialTags => 1,
            Category::Structure => 2,
            Category::Links => 3,
            Category::Media => 4,
            Category::Crawlability => 5,
            Category::Security => 6,
        };
        assert(idx as int == spec_category_index(f.category));
        let cur = acc[idx];
        let next: u64 = if cur + (f.penalty as u64) >= 100 { 100 } else { cur + f.penalty as u64 };
        acc.set(idx, next);
        assert(fs.take(i + 1).drop_last() =~= fs.take(i as int));
        assert(fs.take(i + 1).last() == f@);
        assert forall|c: Category| #[trigger] acc@[spec_category_index(c)] as nat
            == spec_capped_sum(fs.take(i + 1), c) by {
            if c != f.category {
                assert(spec_category_index(c) != idx as int);
            }
        }
    }
    assert(fs.take(n as int) =~= fs);
    let cats = Category::all();
    let mut scores: Vec<(Category, u8)> = Vec::new();
    let mut total: u64 = 0;
    for j in 0..7
        invariant
            cats@ == spec_all_categories(),
            acc@.len() == 7,
            forall|c: Category| #[trigger] acc@[spec_category_index(c)] as nat
                == spec_capped_sum(fs, c),
            scores@ == spec_category_scores(fs).take(j as int),
            total as nat == spec_partial_total(fs, j as int),
            total <= 2000 * j,
    {
        let c = cats[j];
        let idx: usize = j;
        assert(spec_category_index(c) == j as int);
        assert(acc@[spec_category_index(c)] <= 100);
        let s: u64 = 100 - acc[idx];
        assert(s as nat == spec_category_score(fs, c));
        assert(s * (spec_weight(c) as u64) <= 2000) by (nonlinear_arith)
            requires s <= 100, spec_weight(c) <= 20;
        scores.push((c, s as u8));
        total = total + s * (c.weight() as u64);
        assert(scores@ =~= spec_category_scores(fs).take(j + 1));
    }
    assert(spec_category_scores(fs).take(7) =~= spec_category_scores(fs));
    assert(spec_partial_total(fs, 7) == spec_weighted_total(fs)) by {
        reveal_with_fuel(spec_partial_total, 8);
    }
    let score = ((total + 50) / 100) as u8;
    PageReport { url, findings, category_scores: scores, score }
}

/// Σ score × weight over the first `j` categories of [`spec_all_categories`].
pub open spec fn spec_partial_total(fs: Seq<FindingView>, j: int) -> nat
    decreases j,
{
    if j <= 0 {
        0
    } else {
        spec_partial_total(fs, j - 1) + spec_category_score(fs, spec_all_categories()[j - 1])
            * spec_weight(spec_all_categories()[j - 1])
    }
}

/// The site score: the mean page score rounded down, 0 for no pages.
pub open spec fn spec_site_score(scores: Seq<u8>) -> nat {
    if scores.len() == 0 {
        0
    } else {
        spec_sum_u8(scores) / scores.len()
    }
}

pub open spec fn spec_sum_u8(s: Seq<u8>) -> nat
    decreases s.len(),
{
    if s.len() == 0 { 0 } else { spec_sum_u8(s.drop_last()) + s.last() as nat }
}

/// The page scores of a sequence of reports.
pub open spec fn page_scores(reports: Seq<PageReport>) -> Seq<u8> {
    reports.map_values(|r: PageReport| r.score)
}

proof fn lemma_sum_u8_bound(s: Seq<u8>)
    ensures
        spec_sum_u8(s) <= 255 * s.len(),
    decreases s.len(),
{
    if s.len() > 0 {
        lemma_sum_u8_bound(s.drop_last());
    }
}

/// The mean of a list of scores, rounded down; 0 for an empty list.
pub fn mean_score(scores: &[u8]) -> (res: u8)
    ensures
        res as nat == spec_site_score(scores@),
{
    let n = scores.len();
    if n == 0 {
        return 0;
    }
    let mut sum: u128 = 0;
    for i in 0..n
        invariant
            n == scores@.len(),
            sum as nat == spec_sum_u8(scores@.take(i as int)),
            i <= n,
    {
        proof { lemma_sum_u8_bound(scores@.take(i as int)); }
        assert(scores@.take(i + 1).drop_last() =~= scores@.take(i as int));
        assert(sum + 255 <= u128::MAX) by (nonlinear_arith)
            requires sum <= 255 * i, i < n, n <= usize::MAX;
        sum = sum + scores[i] as u128;
    }
    assert(scores@.take(n as int) =~= scores@);
    proof { lemma_sum_u8_bound(scores@); }
    let mean = sum / (n as u128);
    assert(mean <= 255) by (nonlinear_arith)
        requires mean == sum / (n as u128), sum <= 255 * n, n > 0;
    mean as u8
}

/// The mean score of the pages.
pub fn score_site(reports: &[PageReport]) -> (res: u8)
    ensures
        res as nat == spec_site_score(page_scores(reports@)),
{
    let mut scores: Vec<u8> = Vec::new();
    for i in 0..reports.len()
        invariant
            scores@ == page_scores(reports@.take(i as int)),
    {
        assert(page_scores(reports@.take(i + 1)) =~= page_scores(reports@.take(i as int)).push(reports@[i as int].score));
        scores.push(reports[i].score);
    }
    assert(reports@.take(reports@.len() as int) =~= reports@);
    mean_score(scores.as_slice())
}

} // verus!

verus! {

/// Every category score, and the page score, lie in 0..=100.
pub proof fn lemma_page_scores_bounded(fs: Seq<FindingView>)
    ensures
        forall|c: Category| spec_category_score(fs, c) <= 100,
        spec_page_score(fs) <= 100,
{
}

/// A page without findings scores 100 in every category and overall.
pub proof fn lemma_no_findings_scores_100()
    ensures
        forall|c: Category| spec_category_score(Seq::<FindingView>::empty(), c) == 100,
        spec_page_score(Seq::<FindingView>::empty()) == 100,
{
}

/// One more finding never raises a category score or the page score.
pub proof fn lemma_finding_never_raises_score(fs: Seq<FindingView>, f: FindingView)
    ensures
        forall|c: Category| spec_category_score(fs.push(f), c) <= spec_category_score(fs, c),
        spec_page_score(fs.push(f)) <= spec_page_score(fs),
{
    assert(fs.push(f).drop_last() =~= fs);
    assert(spec_weighted_total(fs.push(f)) <= spec_weighted_total(fs));
}

/// The findings of other categories do not change a category's score.
pub proof fn lemma_other_category_finding_keeps_score(fs: Seq<FindingView>, f: FindingView, c: Category)
    requires
        f.category != c,
    ensures
        spec_category_score(fs.push(f), c) == spec_category_score(fs, c),
{
    assert(fs.push(f).drop_last() =~= fs);
}

proof fn lemma_sum_between(s: Seq<u8>, lo: nat, hi: nat)
    requires
        forall|i: int| 0 <= i < s.len() ==> lo <= #[trigger] s[i] <= hi,
    ensures
        lo * s.len() <= spec_sum_u8(s) <= hi * s.len(),
    decreases s.len(),
{
    if s.len() > 0 {
        lemma_sum_between(s.drop_last(), lo, hi);
        assert(lo * s.len() == lo * (s.len() - 1) + lo) by (nonlinear_arith);
        assert(hi * s.len() == hi * (s.len() - 1) + hi) by (nonlinear_arith);
    }
}

proof fn lemma_sum_remove(s: Seq<u8>, j: int)
    requires
        0 <= j < s.len(),
    ensures
        spec_sum_u8(s) == spec_sum_u8(s.remove(j)) + s[j] as nat,
    decreases s.len(),
{
    if j == s.len() - 1 {
        assert(s.remove(j) =~= s.drop_last());
    } else {
        let t = s.remove(j);
        assert(t.drop_last() =~= s.drop_last().remove(j));
        assert(t.last() == s.last());
        lemma_sum_remove(s.drop_last(), j);
    }
}

proof fn lemma_sum_same_multiset(a: Seq<u8>, b: Seq<u8>)
    requires
        a.to_multiset() == b.to_multiset(),
    ensures
        spec_sum_u8(a) == spec_sum_u8(b),
    decreases a.len(),
{
    broadcast use vstd::seq_lib::group_to_multiset_ensures, vstd::multiset::group_multiset_axioms;
    assert(a.len() == a.to_multiset().len());
    assert(b.len() == b.to_multiset().len());
    if a.len() > 0 {
        let x = a.last();
        let init = a.drop_last();
        assert(init.push(x) =~= a);
        assert(a.to_multiset() =~= init.to_multiset().insert(x));
        assert(b.to_multiset().count(x) > 0);
        assert(b.contains(x));
        let j = choose|j: int| 0 <= j < b.len() && b[j] == x;
        assert(b.remove(j).to_multiset() =~= b.to_multiset().remove(x));
        assert(init.to_multiset().insert(x).remove(x) =~= init.to_multiset());
        lemma_sum_same_multiset(init, b.remove(j));
        lemma_sum_remove(b, j);
    }
}

/// The site score does not depend on the order of the pages: two lists of
/// reports holding the same page scores (counted with multiplicity) give the
/// same site score.
pub proof fn lemma_site_score_order_independent(r1: Seq<PageReport>, r2: Seq<PageReport>)
    requires
        page_scores(r1).to_multiset() == page_scores(r2).to_multiset(),
    ensures
        spec_site_score(page_scores(r1)) == spec_site_score(page_scores(r2)),
{
    broadcast use vstd::seq_lib::group_to_multiset_ensures;
    let a = page_scores(r1);
    let b = page_scores(r2);
    assert(a.len() == a.to_multiset().len());
    assert(b.len() == b.to_multiset().len());
    lemma_sum_same_multiset(a, b);
}

/// The site score lies between the lowest and the highest page score.
pub proof fn lemma_site_score_between(scores: Seq<u8>, lo: nat, hi: nat)
    requires
        scores.len() > 0,
        forall|i: int| 0 <= i < scores.len() ==> lo <= #[trigger] scores[i] <= hi,
    ensures
        lo <= spec_site_score(scores) <= hi,
{
    lemma_sum_between(scores, lo, hi);
    let n = scores.len();
    let t = spec_sum_u8(scores);
    assert(lo <= t / n) by (nonlinear_arith)
        requires lo * n <= t, n > 0;
    assert(t / n <= hi) by (nonlinear_arith)
        requires t <= hi * n, n > 0;
}

} // verus!
