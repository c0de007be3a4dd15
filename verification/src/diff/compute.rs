use vstd::prelude::*;
use crate::model::{spec_all_categories, spec_keys_distinct, spec_lookup_score, AuditReport, Category, PageReport};
use crate::score::{mean_score, spec_site_score};
use crate::text::{
    chars_eq, chars_lt, chars_of, lemma_seq_lt_total,
    lemma_seq_lt_transitive, spec_seq_lt,
};
use crate::weburl::WebUrl;
use super::model::{diff_views, DiffReport, PageDiff, PageDiffKind, PageDiffView};

verus! {

// ── Pages ───────────────────────────────────────────────────────────────────

/// The score of the last page of `pages` whose URL is `url`: a report that
/// lists a URL twice counts its later entry.
pub open spec fn spec_last_score(pages: Seq<PageReport>, url: Seq<char>) -> Option<u8>
    decreases pages.len(),
{
    if pages.len() == 0 {
        None
    } else if pages.last().url@ == url {
        Some(pages.last().score)
    } else {
        spec_last_score(pages.drop_last(), url)
    }
}

/// Some page of `pages` has the URL `url`.
pub open spec fn spec_has_url(pages: Seq<PageReport>, url: Seq<char>) -> bool {
    exists|j: int| 0 <= j < pages.len() && #[trigger] pages[j].url@ == url
}

/// Either report lists `url`.
pub open spec fn spec_listed(before: Seq<PageReport>, after: Seq<PageReport>, url: Seq<char>) -> bool {
    spec_has_url(before, url) || spec_has_url(after, url)
}

/// The diff entry of `url`.
pub open spec fn spec_page_diff(
    before: Seq<PageReport>,
    after: Seq<PageReport>,
    url: Seq<char>,
) -> PageDiffView {
    match (spec_last_score(before, url), spec_last_score(after, url)) {
        (Some(b), Some(a)) => PageDiffView {
            url,
            kind: if a == b { PageDiffKind::Unchanged } else { PageDiffKind::Changed },
            before_score: Some(b),
            after_score: Some(a),
            delta: (a - b) as i16,
        },
        (None, Some(a)) => PageDiffView {
            url,
            kind: PageDiffKind::Added,
            before_score: None,
            after_score: Some(a),
            delta: 0,
        },
        (Some(b), None) => PageDiffView {
            url,
            kind: PageDiffKind::Removed,
            before_score: Some(b),
            after_score: None,
            delta: 0,
        },
        (None, None) => PageDiffView {
            url,
            kind: PageDiffKind::Unchanged,
            before_score: None,
            after_score: None,
            delta: 0,
        },
    }
}

/// The order of the diff entries: by delta ascending (worst regression first),
/// then by URL.
pub open spec fn spec_diff_lt(a: PageDiffView, b: PageDiffView) -> bool {
    a.delta < b.delta || (a.delta == b.delta && spec_seq_lt(a.url, b.url))
}

/// `s` lists the diff entry of every URL of either report, once each, in
/// [`spec_diff_lt`] order.
pub open spec fn spec_is_page_diff_list(
    before: Seq<PageReport>,
    after: Seq<PageReport>,
    s: Seq<PageDiffView>,
) -> bool {
    &&& forall|x: int|
        0 <= x < s.len() ==> #[trigger] s[x] == spec_page_diff(before, after, s[x].url)
            && spec_listed(before, after, s[x].url)
    &&& forall|url: Seq<char>|
        #[trigger] spec_listed(before, after, url) ==> exists|x: int|
            0 <= x < s.len() && #[trigger] s[x].url == url
    &&& forall|a: int, b: int| 0 <= a < b < s.len() ==> spec_diff_lt(s[a], s[b])
}

/// A report has a score for a URL exactly when it lists the URL.
pub proof fn lemma_last_score_some(pages: Seq<PageReport>, url: Seq<char>)
    ensures
        spec_last_score(pages, url) is Some <==> spec_has_url(pages, url),
    decreases pages.len(),
{
    if pages.len() > 0 {
        let init = pages.drop_last();
        lemma_last_score_some(init, url);
        if spec_has_url(init, url) {
            let j = choose|j: int| 0 <= j < init.len() && #[trigger] init[j].url@ == url;
            assert(pages[j] == init[j]);
        }
        if spec_has_url(pages, url) && pages.last().url@ != url {
            let j = choose|j: int| 0 <= j < pages.len() && #[trigger] pages[j].url@ == url;
            assert(init[j] == pages[j]);
        }
        if pages.last().url@ == url {
            assert(pages[pages.len() - 1].url@ == url);
        }
    }
}

proof fn lemma_diff_lt_transitive(a: PageDiffView, b: PageDiffView, c: PageDiffView)
    requires
        spec_diff_lt(a, b),
        spec_diff_lt(b, c),
    ensures
        spec_diff_lt(a, c),
{
    if a.delta == b.delta && b.delta == c.delta {
        lemma_seq_lt_transitive(a.url, b.url, c.url);
    }
}

proof fn lemma_diff_lt_total(a: PageDiffView, b: PageDiffView)
    requires
        a.url != b.url,
    ensures
        spec_diff_lt(a, b) || spec_diff_lt(b, a),
{
    lemma_seq_lt_total(a.url, b.url);
}

/// Inserting `d` where the scan stopped keeps the list in order.
proof fn lemma_insert_sorted(s: Seq<PageDiffView>, d: PageDiffView, p: int)
    requires
        forall|a: int, b: int| 0 <= a < b < s.len() ==> spec_diff_lt(s[a], s[b]),
        0 <= p <= s.len(),
        forall|q: int| 0 <= q < p ==> !spec_diff_lt(d, #[trigger] s[q]),
        p < s.len() ==> spec_diff_lt(d, s[p]),
        forall|q: int| 0 <= q < s.len() ==> (#[trigger] s[q]).url != d.url,
    ensures
        forall|a: int, b: int|
            0 <= a < b < s.insert(p, d).len() ==> spec_diff_lt(s.insert(p, d)[a], s.insert(p, d)[b]),
{
    let t = s.insert(p, d);
    assert forall|a: int, b: int| 0 <= a < b < t.len() implies spec_diff_lt(t[a], t[b]) by {
        if b < p {
            assert(t[a] == s[a] && t[b] == s[b]);
        } else if b == p {
            assert(t[a] == s[a] && t[b] == d);
            assert(!spec_diff_lt(d, s[a]));
            lemma_diff_lt_total(s[a], d);
        } else if a < p {
            assert(t[a] == s[a] && t[b] == s[b - 1]);
        } else if a == p {
            assert(t[a] == d && t[b] == s[b - 1]);
            if b - 1 > p {
                lemma_diff_lt_transitive(d, s[p], s[b - 1]);
            }
        } else {
            assert(t[a] == s[a - 1] && t[b] == s[b - 1]);
        }
    }
}

/// The score of the last page of `pages` with URL `url`.
fn last_score(pages: &[PageReport], url: &[char]) -> (res: Option<u8>)
    ensures
        res == spec_last_score(pages@, url@),
{
    let mut res: Option<u8> = None;
    for i in 0..pages.len()
        invariant
            res == spec_last_score(pages@.take(i as int), url@),
    {
        assert(pages@.take(i + 1).drop_last() =~= pages@.take(i as int));
        let u = chars_of(pages[i].url.as_str());
        if chars_eq(u.as_slice(), url) {
            res = Some(pages[i].score);
        }
    }
    assert(pages@.take(pages@.len() as int) =~= pages@);
    res
}

/// Some URL of `urls` has the text `u`.
pub open spec fn spec_url_in(urls: Seq<WebUrl>, u: Seq<char>) -> bool {
    exists|k: int| 0 <= k < urls.len() && #[trigger] urls[k]@ == u
}

/// No text occurs twice in `urls`.
pub open spec fn spec_distinct_urls(urls: Seq<WebUrl>) -> bool {
    forall|a: int, b: int| 0 <= a < b < urls.len() ==> urls[a]@ != urls[b]@
}

proof fn lemma_url_in_push(urls: Seq<WebUrl>, x: WebUrl, u: Seq<char>)
    requires
        spec_url_in(urls, u) || x@ == u,
    ensures
        spec_url_in(urls.push(x), u),
{
    if x@ == u {
        assert(urls.push(x)[urls.len() as int]@ == u);
    } else {
        let k = choose|k: int| 0 <= k < urls.len() && #[trigger] urls[k]@ == u;
        assert(urls.push(x)[k]@ == u);
    }
}

fn contains_url(urls: &Vec<WebUrl>, u: &[char]) -> (res: bool)
    ensures
        res == spec_url_in(urls@, u@),
{
    for k in 0..urls.len()
        invariant
            forall|j: int| 0 <= j < k ==> urls@[j]@ != u@,
    {
        let c = chars_of(urls[k].as_str());
        if chars_eq(c.as_slice(), u) {
            assert(urls@[k as int]@ == u@);
            return true;
        }
    }
    false
}

/// Appends the URLs of `pages` that `urls` lacks.
fn add_urls(urls: &mut Vec<WebUrl>, pages: &[PageReport])
    requires
        spec_distinct_urls(old(urls)@),
    ensures
        spec_distinct_urls(final(urls)@),
        forall|u: Seq<char>| #[trigger] spec_url_in(old(urls)@, u) ==> spec_url_in(final(urls)@, u),
        forall|j: int| 0 <= j < pages@.len() ==> spec_url_in(final(urls)@, #[trigger] pages@[j].url@),
        forall|k: int|
            0 <= k < final(urls)@.len() ==> spec_url_in(old(urls)@, #[trigger] final(urls)@[k]@)
                || spec_has_url(pages@, final(urls)@[k]@),
{
    let ghost start = urls@;
    for i in 0..pages.len()
        invariant
            spec_distinct_urls(urls@),
            forall|u: Seq<char>| #[trigger] spec_url_in(start, u) ==> spec_url_in(urls@, u),
            forall|j: int| 0 <= j < i ==> spec_url_in(urls@, #[trigger] pages@[j].url@),
            forall|k: int|
                0 <= k < urls@.len() ==> spec_url_in(start, #[trigger] urls@[k]@)
                    || spec_has_url(pages@, urls@[k]@),
    {
        let u = chars_of(pages[i].url.as_str());
        if !contains_url(urls, u.as_slice()) {
            let ghost before_push = urls@;
            let x = pages[i].url.clone();
            urls.push(x);
            assert(urls@ == before_push.push(x));
            assert forall|v: Seq<char>| #[trigger] spec_url_in(before_push, v) implies spec_url_in(urls@, v) by {
                lemma_url_in_push(before_push, x, v);
            }
            assert forall|j: int| 0 <= j <= i implies spec_url_in(urls@, #[trigger] pages@[j].url@) by {
                lemma_url_in_push(before_push, x, pages@[j].url@);
            }
            assert forall|k: int| 0 <= k < urls@.len() implies spec_url_in(start, #[trigger] urls@[k]@)
                || spec_has_url(pages@, urls@[k]@) by {
                if k == before_push.len() {
                    assert(pages@[i as int].url@ == urls@[k]@);
                } else {
                    assert(urls@[k] == before_push[k]);
                }
            }
        }
    }
}

/// The URLs of both reports, each once.
fn collect_urls(before: &[PageReport], after: &[PageReport]) -> (urls: Vec<WebUrl>)
    ensures
        spec_distinct_urls(urls@),
        forall|k: int| 0 <= k < urls@.len() ==> spec_listed(before@, after@, #[trigger] urls@[k]@),
        forall|u: Seq<char>| #[trigger] spec_listed(before@, after@, u) ==> spec_url_in(urls@, u),
{
    let mut urls: Vec<WebUrl> = Vec::new();
    add_urls(&mut urls, before);
    let ghost mid = urls@;
    add_urls(&mut urls, after);
    assert forall|u: Seq<char>| #[trigger] spec_listed(before@, after@, u) implies spec_url_in(urls@, u) by {
        if spec_has_url(before@, u) {
            let j = choose|j: int| 0 <= j < before@.len() && #[trigger] before@[j].url@ == u;
            assert(spec_url_in(mid, before@[j].url@));
        } else {
            let j = choose|j: int| 0 <= j < after@.len() && #[trigger] after@[j].url@ == u;
            assert(spec_url_in(urls@, after@[j].url@));
        }
    }
    assert forall|k: int| 0 <= k < urls@.len() implies spec_listed(before@, after@, #[trigger] urls@[k]@) by {
        if spec_url_in(mid, urls@[k]@) {
            let m = choose|m: int| 0 <= m < mid.len() && #[trigger] mid[m]@ == urls@[k]@;
            assert(spec_url_in(Seq::<WebUrl>::empty(), mid[m]@) || spec_has_url(before@, mid[m]@));
        }
    }
    urls
}

/// The diff entry of `url`.
fn page_diff(before: &[PageReport], after: &[PageReport], url: &WebUrl) -> (res: PageDiff)
    ensures
        res@ == spec_page_diff(before@, after@, url@),
{
    let u = chars_of(url.as_str());
    let b = last_score(before, u.as_slice());
    let a = last_score(after, u.as_slice());
    let url = url.clone();
    match (b, a) {
        (Some(bs), Some(as_)) => {
            let delta: i16 = as_ as i16 - bs as i16;
            let kind = if delta == 0 { PageDiffKind::Unchanged } else { PageDiffKind::Changed };
            PageDiff { url, kind, before_score: Some(bs), after_score: Some(as_), delta }
        },
        (None, Some(as_)) => PageDiff {
            url,
            kind: PageDiffKind::Added,
            before_score: None,
            after_score: Some(as_),
            delta: 0,
        },
        (Some(bs), None) => PageDiff {
            url,
            kind: PageDiffKind::Removed,
            before_score: Some(bs),
            after_score: None,
            delta: 0,
        },
        (None, None) => PageDiff {
            url,
            kind: PageDiffKind::Unchanged,
            before_score: None,
            after_score: None,
            delta: 0,
        },
    }
}

fn diff_lt(a: &PageDiff, b: &PageDiff) -> (res: bool)
    ensures
        res == spec_diff_lt(a@, b@),
{
    if a.delta != b.delta {
        return a.delta < b.delta;
    }
    let x = chars_of(a.url.as_str());
    let y = chars_of(b.url.as_str());
    chars_lt(x.as_slice(), y.as_slice())
}

/// No two entries of `s` are equal.
pub open spec fn spec_distinct_seqs(s: Seq<Seq<char>>) -> bool {
    forall|a: int, b: int| 0 <= a < b < s.len() ==> s[a] != s[b]
}

#[verifier::opaque]
spec fn spec_sorted_diffs(sv: Seq<PageDiffView>) -> bool {
    forall|a: int, b: int| 0 <= a < b < sv.len() ==> spec_diff_lt(sv[a], sv[b])
}

#[verifier::opaque]
spec fn spec_correct_diffs(sv: Seq<PageDiffView>, before: Seq<PageReport>, after: Seq<PageReport>) -> bool {
    forall|x: int| 0 <= x < sv.len() ==> #[trigger] sv[x] == spec_page_diff(before, after, sv[x].url)
}

#[verifier::opaque]
spec fn spec_diffs_from(sv: Seq<PageDiffView>, us: Seq<Seq<char>>, n: int) -> bool {
    forall|x: int| 0 <= x < sv.len() ==> exists|k: int| 0 <= k < n && #[trigger] us[k] == (#[trigger] sv[x]).url
}

#[verifier::opaque]
spec fn spec_diffs_cover(sv: Seq<PageDiffView>, us: Seq<Seq<char>>, n: int) -> bool {
    forall|k: int| 0 <= k < n ==> exists|x: int| 0 <= x < sv.len() && (#[trigger] sv[x]).url == #[trigger] us[k]
}

proof fn lemma_insert_step(
    us: Seq<Seq<char>>,
    i: int,
    sv: Seq<PageDiffView>,
    d: PageDiffView,
    p: int,
    before: Seq<PageReport>,
    after: Seq<PageReport>,
)
    requires
        0 <= i < us.len(),
        spec_distinct_seqs(us),
        d == spec_page_diff(before, after, us[i]),
        spec_sorted_diffs(sv),
        spec_correct_diffs(sv, before, after),
        spec_diffs_from(sv, us, i),
        spec_diffs_cover(sv, us, i),
        0 <= p <= sv.len(),
        forall|q: int| 0 <= q < p ==> !spec_diff_lt(d, #[trigger] sv[q]),
        p < sv.len() ==> spec_diff_lt(d, sv[p]),
    ensures
        spec_sorted_diffs(sv.insert(p, d)),
        spec_correct_diffs(sv.insert(p, d), before, after),
        spec_diffs_from(sv.insert(p, d), us, i + 1),
        spec_diffs_cover(sv.insert(p, d), us, i + 1),
{
    lemma_insert_keeps_order(us, i, sv, d, p);
    lemma_insert_keeps_correct(sv, d, p, before, after);
    lemma_insert_keeps_from(us, i, sv, d, p);
    lemma_insert_keeps_cover(us, i, sv, d, p);
}

proof fn lemma_insert_keeps_order(us: Seq<Seq<char>>, i: int, sv: Seq<PageDiffView>, d: PageDiffView, p: int)
    requires
        0 <= i < us.len(),
        spec_distinct_seqs(us),
        d.url == us[i],
        spec_sorted_diffs(sv),
        spec_diffs_from(sv, us, i),
        0 <= p <= sv.len(),
        forall|q: int| 0 <= q < p ==> !spec_diff_lt(d, #[trigger] sv[q]),
        p < sv.len() ==> spec_diff_lt(d, sv[p]),
    ensures
        spec_sorted_diffs(sv.insert(p, d)),
{
    reveal(spec_sorted_diffs);
    reveal(spec_diffs_from);
    assert forall|q: int| 0 <= q < sv.len() implies (#[trigger] sv[q]).url != d.url by {
        let k = choose|k: int| 0 <= k < i && #[trigger] us[k] == (#[trigger] sv[q]).url;
    }
    lemma_insert_sorted(sv, d, p);
}

proof fn lemma_insert_keeps_correct(
    sv: Seq<PageDiffView>,
    d: PageDiffView,
    p: int,
    before: Seq<PageReport>,
    after: Seq<PageReport>,
)
    requires
        d == spec_page_diff(before, after, d.url),
        spec_correct_diffs(sv, before, after),
        0 <= p <= sv.len(),
    ensures
        spec_correct_diffs(sv.insert(p, d), before, after),
{
    reveal(spec_correct_diffs);
    let t = sv.insert(p, d);
    assert forall|x: int| 0 <= x < t.len() implies #[trigger] t[x] == spec_page_diff(before, after, t[x].url) by {
        if x < p {
            assert(t[x] == sv[x]);
        } else if x > p {
            assert(t[x] == sv[x - 1]);
        }
    }
}

proof fn lemma_insert_keeps_from(us: Seq<Seq<char>>, i: int, sv: Seq<PageDiffView>, d: PageDiffView, p: int)
    requires
        0 <= i < us.len(),
        d.url == us[i],
        spec_diffs_from(sv, us, i),
        0 <= p <= sv.len(),
    ensures
        spec_diffs_from(sv.insert(p, d), us, i + 1),
{
    reveal(spec_diffs_from);
    let t = sv.insert(p, d);
    assert forall|x: int| 0 <= x < t.len() implies exists|k: int|
        0 <= k < i + 1 && #[trigger] us[k] == (#[trigger] t[x]).url by {
        if x < p {
            assert(t[x] == sv[x]);
            let k = choose|k: int| 0 <= k < i && #[trigger] us[k] == (#[trigger] sv[x]).url;
            assert(us[k] == t[x].url);
        } else if x == p {
            assert(us[i] == t[x].url);
        } else {
            assert(t[x] == sv[x - 1]);
            let k = choose|k: int| 0 <= k < i && #[trigger] us[k] == (#[trigger] sv[x - 1]).url;
            assert(us[k] == t[x].url);
        }
    }
}

proof fn lemma_insert_keeps_cover(us: Seq<Seq<char>>, i: int, sv: Seq<PageDiffView>, d: PageDiffView, p: int)
    requires
        0 <= i < us.len(),
        d.url == us[i],
        spec_diffs_cover(sv, us, i),
        0 <= p <= sv.len(),
    ensures
        spec_diffs_cover(sv.insert(p, d), us, i + 1),
{
    reveal(spec_diffs_cover);
    let t = sv.insert(p, d);
    assert forall|k: int| 0 <= k < i + 1 implies exists|x: int|
        0 <= x < t.len() && (#[trigger] t[x]).url == #[trigger] us[k] by {
        if k == i {
            assert(t[p].url == us[k]);
        } else {
            let x = choose|x: int| 0 <= x < sv.len() && (#[trigger] sv[x]).url == #[trigger] us[k];
            if x < p {
                assert(t[x] == sv[x]);
                assert(t[x].url == us[k]);
            } else {
                assert(t[x + 1] == sv[x]);
                assert(t[x + 1].url == us[k]);
            }
        }
    }
}

/// The diff entries of all URLs of either list, in [`spec_diff_lt`] order.
pub fn diff_pages(before: &[PageReport], after: &[PageReport]) -> (res: Vec<PageDiff>)
    ensures
        spec_is_page_diff_list(before@, after@, diff_views(res@)),
{
    let urls = collect_urls(before, after);
    let ghost us = crate::model::url_views(urls@);
    assert(spec_distinct_seqs(us)) by {
        assert forall|a: int, b: int| 0 <= a < b < us.len() implies us[a] != us[b] by {
            assert(us[a] == urls@[a]@ && us[b] == urls@[b]@);
        }
    }
    let mut sorted: Vec<PageDiff> = Vec::new();
    proof {
        reveal(spec_sorted_diffs);
        reveal(spec_correct_diffs);
        reveal(spec_diffs_from);
        reveal(spec_diffs_cover);
    }
    let mut i: usize = 0;
    while i < urls.len()
        invariant
            i <= urls@.len(),
            us == crate::model::url_views(urls@),
            spec_distinct_seqs(us),
            spec_sorted_diffs(diff_views(sorted@)),
            spec_correct_diffs(diff_views(sorted@), before@, after@),
            spec_diffs_from(diff_views(sorted@), us, i as int),
            spec_diffs_cover(diff_views(sorted@), us, i as int),
        decreases urls@.len() - i,
    {
        let d = page_diff(before, after, &urls[i]);
        let ghost sv = diff_views(sorted@);
        let mut p: usize = 0;
        while p < sorted.len() && !diff_lt(&d, &sorted[p])
            invariant
                p <= sorted@.len(),
                sv == diff_views(sorted@),
                forall|q: int| 0 <= q < p ==> !spec_diff_lt(d@, #[trigger] sv[q]),
            decreases sorted@.len() - p,
        {
            p = p + 1;
        }
        proof {
            lemma_insert_step(us, i as int, sv, d@, p as int, before@, after@);
        }
        let ghost old_sorted = sorted@;
        sorted.insert(p, d);
        assert(diff_views(sorted@) =~= sv.insert(p as int, d@));
        i = i + 1;
    }
    proof {
        reveal(spec_sorted_diffs);
        reveal(spec_correct_diffs);
        reveal(spec_diffs_from);
        reveal(spec_diffs_cover);
        let sv = diff_views(sorted@);
        assert forall|x: int| 0 <= x < sv.len() implies #[trigger] sv[x] == spec_page_diff(before@, after@, sv[x].url)
            && spec_listed(before@, after@, sv[x].url) by {
            let k = choose|k: int| 0 <= k < i && #[trigger] us[k] == (#[trigger] sv[x]).url;
            assert(us[k] == urls@[k]@);
        }
        assert forall|url: Seq<char>| #[trigger] spec_listed(before@, after@, url) implies exists|x: int|
            0 <= x < sv.len() && #[trigger] sv[x].url == url by {
            let k = choose|k: int| 0 <= k < urls@.len() && #[trigger] urls@[k]@ == url;
            assert(us[k] == url);
            let x = choose|x: int| 0 <= x < sv.len() && (#[trigger] sv[x]).url == #[trigger] us[k];
        }
    }
    sorted
}

// ── Categories ──────────────────────────────────────────────────────────────

/// The scores the pages record for `cat`, in page order (pages that record
/// none are skipped).
pub open spec fn spec_scores_for(pages: Seq<PageReport>, cat: Category) -> Seq<u8>
    decreases pages.len(),
{
    if pages.len() == 0 {
        Seq::empty()
    } else {
        let rest = spec_scores_for(pages.drop_last(), cat);
        match spec_lookup_score(pages.last().category_scores@, cat) {
            Some(s) => rest.push(s),
            None => rest,
        }
    }
}

/// The change of the mean score of `cat` (each mean rounded down, 0 for a side
/// without scores), or `None` where neither side scores it.
pub open spec fn spec_category_delta(before: Seq<PageReport>, after: Seq<PageReport>, cat: Category) -> Option<i16> {
    let b = spec_scores_for(before, cat);
    let a = spec_scores_for(after, cat);
    if b.len() == 0 && a.len() == 0 {
        None
    } else {
        Some((spec_site_score(a) - spec_site_score(b)) as i16)
    }
}

/// The deltas of the categories `cats` that either side scores, in order.
pub open spec fn spec_delta_entries(
    cats: Seq<Category>,
    before: Seq<PageReport>,
    after: Seq<PageReport>,
) -> Seq<(Category, i16)>
    decreases cats.len(),
{
    if cats.len() == 0 {
        Seq::empty()
    } else {
        let rest = spec_delta_entries(cats.drop_last(), before, after);
        match spec_category_delta(before, after, cats.last()) {
            Some(d) => rest.push((cats.last(), d)),
            None => rest,
        }
    }
}

/// The category deltas of a comparison, in [`Category::all`] order.
pub open spec fn spec_category_deltas(before: Seq<PageReport>, after: Seq<PageReport>) -> Seq<(Category, i16)> {
    spec_delta_entries(spec_all_categories(), before, after)
}

fn scores_for(pages: &[PageReport], cat: Category) -> (res: Vec<u8>)
    ensures
        res@ == spec_scores_for(pages@, cat),
{
    let mut res: Vec<u8> = Vec::new();
    for i in 0..pages.len()
        invariant
            res@ == spec_scores_for(pages@.take(i as int), cat),
    {
        assert(pages@.take(i + 1).drop_last() =~= pages@.take(i as int));
        match pages[i].category_score(cat) {
            Some(s) => res.push(s),
            None => {},
        }
    }
    assert(pages@.take(pages@.len() as int) =~= pages@);
    res
}

fn category_delta(before: &[PageReport], after: &[PageReport], cat: Category) -> (res: Option<i16>)
    ensures
        res == spec_category_delta(before@, after@, cat),
{
    let b = scores_for(before, cat);
    let a = scores_for(after, cat);
    if b.len() == 0 && a.len() == 0 {
        return None;
    }
    let bm = mean_score(b.as_slice());
    let am = mean_score(a.as_slice());
    Some(am as i16 - bm as i16)
}

fn category_deltas(before: &[PageReport], after: &[PageReport]) -> (res: Vec<(Category, i16)>)
    ensures
        res@ == spec_category_deltas(before@, after@),
{
    let cats = Category::all();
    let mut res: Vec<(Category, i16)> = Vec::new();
    for i in 0..cats.len()
        invariant
            cats@ == spec_all_categories(),
            res@ == spec_delta_entries(cats@.take(i as int), before@, after@),
    {
        assert(cats@.take(i + 1).drop_last() =~= cats@.take(i as int));
        let c = cats[i];
        match category_delta(before, after, c) {
            Some(d) => res.push((c, d)),
            None => {},
        }
    }
    assert(cats@.take(cats@.len() as int) =~= cats@);
    res
}

// ── The comparison ──────────────────────────────────────────────────────────

proof fn lemma_delta_entries_keys(cats: Seq<Category>, before: Seq<PageReport>, after: Seq<PageReport>)
    requires
        forall|i: int, j: int| 0 <= i < j < cats.len() ==> cats[i] != cats[j],
    ensures
        spec_keys_distinct(spec_delta_entries(cats, before, after)),
        forall|k: int| 0 <= k < spec_delta_entries(cats, before, after).len()
            ==> cats.contains(#[trigger] spec_delta_entries(cats, before, after)[k].0),
    decreases cats.len(),
{
    if cats.len() > 0 {
        let init = cats.drop_last();
        lemma_delta_entries_keys(init, before, after);
        let rest = spec_delta_entries(init, before, after);
        let e = spec_delta_entries(cats, before, after);
        assert forall|k: int| 0 <= k < rest.len() implies (#[trigger] rest[k]).0 != cats.last() by {
            assert(init.contains(rest[k].0));
            let m = choose|m: int| 0 <= m < init.len() && init[m] == rest[k].0;
            assert(cats[m] == init[m]);
        }
        assert forall|k: int| 0 <= k < e.len() implies cats.contains(#[trigger] e[k].0) by {
            if k < rest.len() {
                assert(e[k] == rest[k]);
                assert(init.contains(rest[k].0));
                let m = choose|m: int| 0 <= m < init.len() && init[m] == rest[k].0;
                assert(cats[m] == init[m]);
            } else {
                assert(cats[cats.len() - 1] == cats.last());
            }
        }
        assert forall|i: int, j: int| 0 <= i < j < e.len() implies (#[trigger] e[i]).0 != (#[trigger] e[j]).0 by {
            if j < rest.len() {
                assert(e[i] == rest[i] && e[j] == rest[j]);
            } else {
                assert(e[i] == rest[i]);
            }
        }
    }
}

/// Each category has at most one delta in a comparison.
pub proof fn lemma_category_deltas_distinct(before: Seq<PageReport>, after: Seq<PageReport>)
    ensures
        spec_keys_distinct(spec_category_deltas(before, after)),
{
    lemma_delta_entries_keys(spec_all_categories(), before, after);
}

/// Added and Removed trade places when the two reports are swapped.
pub open spec fn spec_swapped_kind(k: PageDiffKind) -> PageDiffKind {
    match k {
        PageDiffKind::Added => PageDiffKind::Removed,
        PageDiffKind::Removed => PageDiffKind::Added,
        other => other,
    }
}

/// A category delta entry with its delta negated.
pub open spec fn spec_negated_entry(e: (Category, i16)) -> (Category, i16) {
    (e.0, (-e.1) as i16)
}

proof fn lemma_mean_at_most_255(s: Seq<u8>)
    ensures
        spec_site_score(s) <= 255,
{
    if s.len() > 0 {
        crate::score::lemma_site_score_between(s, 0, 255);
    }
}

proof fn lemma_category_delta_swap(x: Seq<PageReport>, y: Seq<PageReport>, c: Category)
    ensures
        spec_category_delta(y, x, c) == match spec_category_delta(x, y, c) {
            Some(d) => Some((-d) as i16),
            None => None::<i16>,
        },
{
    lemma_mean_at_most_255(spec_scores_for(x, c));
    lemma_mean_at_most_255(spec_scores_for(y, c));
}

proof fn lemma_delta_entries_swap(cats: Seq<Category>, x: Seq<PageReport>, y: Seq<PageReport>)
    ensures
        spec_delta_entries(cats, y, x) == spec_delta_entries(cats, x, y).map_values(
            |e: (Category, i16)| spec_negated_entry(e),
        ),
    decreases cats.len(),
{
    if cats.len() > 0 {
        lemma_delta_entries_swap(cats.drop_last(), x, y);
        lemma_category_delta_swap(x, y, cats.last());
        let rest = spec_delta_entries(cats.drop_last(), x, y);
        let f = |e: (Category, i16)| spec_negated_entry(e);
        match spec_category_delta(x, y, cats.last()) {
            Some(d) => {
                assert(rest.push((cats.last(), d)).map_values(f) =~= rest.map_values(f).push(f((cats.last(), d))));
            },
            None => {},
        }
    }
}

/// Swapping the two reports of a comparison negates it: a URL is listed by one
/// order exactly when by the other; its entry keeps its URL, trades the before
/// and after scores, negates its delta, and turns Added into Removed and back;
/// and every category delta is negated, with the same categories in the same
/// order.
pub proof fn lemma_swap_negates(x: Seq<PageReport>, y: Seq<PageReport>, url: Seq<char>)
    ensures
        spec_listed(y, x, url) == spec_listed(x, y, url),
        spec_page_diff(y, x, url).url == spec_page_diff(x, y, url).url,
        spec_page_diff(y, x, url).before_score == spec_page_diff(x, y, url).after_score,
        spec_page_diff(y, x, url).after_score == spec_page_diff(x, y, url).before_score,
        spec_page_diff(y, x, url).delta == -spec_page_diff(x, y, url).delta,
        spec_page_diff(y, x, url).kind == spec_swapped_kind(spec_page_diff(x, y, url).kind),
        spec_category_deltas(y, x) == spec_category_deltas(x, y).map_values(
            |e: (Category, i16)| spec_negated_entry(e),
        ),
{
    lemma_delta_entries_swap(spec_all_categories(), x, y);
}

/// Compares two audit reports: the site score change, the mean score change of
/// each category, and the score change of every page.
pub fn diff_reports(before: &AuditReport, after: &AuditReport) -> (res: DiffReport)
    ensures
        res.before_site_score == before.site_score,
        res.after_site_score == after.site_score,
        res.site_score_delta == after.site_score - before.site_score,
        res.category_deltas@ == spec_category_deltas(before.pages@, after.pages@),
        spec_keys_distinct(res.category_deltas@),
        spec_is_page_diff_list(before.pages@, after.pages@, diff_views(res.pages@)),
        res.before_root@ == before.root@,
        res.after_root@ == after.root@,
{
    proof { lemma_category_deltas_distinct(before.pages@, after.pages@); }
    let pages = diff_pages(before.pages.as_slice(), after.pages.as_slice());
    let category_deltas = category_deltas(before.pages.as_slice(), after.pages.as_slice());
    DiffReport {
        before_site_score: before.site_score,
        after_site_score: after.site_score,
        site_score_delta: after.site_score as i16 - before.site_score as i16,
        category_deltas,
        pages,
        before_root: before.root.clone(),
        after_root: after.root.clone(),
    }
}

// ── Laws ────────────────────────────────────────────────────────────────────

proof fn lemma_self_delta_entries(cats: Seq<Category>, pages: Seq<PageReport>)
    ensures
        forall|k: int| 0 <= k < spec_delta_entries(cats, pages, pages).len()
            ==> (#[trigger] spec_delta_entries(cats, pages, pages)[k]).1 == 0,
    decreases cats.len(),
{
    if cats.len() > 0 {
        lemma_self_delta_entries(cats.drop_last(), pages);
        let rest = spec_delta_entries(cats.drop_last(), pages, pages);
        let all = spec_delta_entries(cats, pages, pages);
        match spec_category_delta(pages, pages, cats.last()) {
            Some(d) => {
                assert(all == rest.push((cats.last(), d)));
                assert forall|k: int| 0 <= k < all.len() implies (#[trigger] all[k]).1 == 0 by {
                    if k < rest.len() {
                        assert(all[k] == rest[k]);
                    }
                }
            },
            None => {},
        }
    }
}

/// Comparing a report with itself finds no change: every page is unchanged
/// with delta 0, and every category delta is 0.
pub proof fn lemma_identical_reports_unchanged(pages: Seq<PageReport>)
    ensures
        forall|url: Seq<char>| #[trigger] spec_listed(pages, pages, url) ==> {
            let d = spec_page_diff(pages, pages, url);
            &&& d.kind == PageDiffKind::Unchanged
            &&& d.delta == 0
            &&& d.before_score == d.after_score
            &&& d.before_score is Some
        },
        forall|k: int| 0 <= k < spec_category_deltas(pages, pages).len()
            ==> (#[trigger] spec_category_deltas(pages, pages)[k]).1 == 0,
{
    assert forall|url: Seq<char>| #[trigger] spec_listed(pages, pages, url) implies {
        let d = spec_page_diff(pages, pages, url);
        &&& d.kind == PageDiffKind::Unchanged
        &&& d.delta == 0
        &&& d.before_score == d.after_score
        &&& d.before_score is Some
    } by {
        lemma_last_score_some(pages, url);
    }
    lemma_self_delta_entries(spec_all_categories(), pages);
}

/// A page is added exactly when only the "after" report lists it, removed
/// exactly when only the "before" report lists it, and otherwise changed or
/// unchanged by whether its score moved.
pub proof fn lemma_page_kind_by_presence(before: Seq<PageReport>, after: Seq<PageReport>, url: Seq<char>)
    requires
        spec_listed(before, after, url),
    ensures
        (spec_page_diff(before, after, url).kind == PageDiffKind::Added)
            <==> (!spec_has_url(before, url) && spec_has_url(after, url)),
        (spec_page_diff(before, after, url).kind == PageDiffKind::Removed)
            <==> (spec_has_url(before, url) && !spec_has_url(after, url)),
        spec_has_url(before, url) && spec_has_url(after, url) ==> (
            (spec_page_diff(before, after, url).kind == PageDiffKind::Unchanged)
                <==> spec_page_diff(before, after, url).delta == 0),
{
    lemma_last_score_some(before, url);
    lemma_last_score_some(after, url);
}

} // verus!
