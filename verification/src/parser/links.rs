use vstd::prelude::*;
use crate::parser::dom::{spec_dom_attrs, spec_present_opt, str_views, Dom};
use crate::text::{
    chars_eq, chars_lt, chars_of, lemma_seq_lt_irreflexive, lemma_seq_lt_total, lemma_seq_lt_transitive,
    spec_seq_lt, spec_trim, starts_with,
    string_of, trim,
};
use crate::weburl::{
    form_urlencode, opt_view, pair_views, spec_form_urlencode, spec_url_host_str, spec_url_join,
    spec_url_fragment, spec_url_path, spec_url_query_pairs, spec_url_scheme, spec_url_with_path,
    spec_url_with_query, spec_url_without_fragment, WebUrl,
};

verus! {

// ── Query parameters ────────────────────────────────────────────────────────

/// Query keys that only track visitors and say nothing about the page.
pub open spec fn spec_is_tracking_key(k: Seq<char>) -> bool {
    "utm_"@.is_prefix_of(k) || k == "fbclid"@ || k == "gclid"@ || k == "mc_eid"@ || k == "ref"@
        || k == "igshid"@
}

/// The pairs whose key is not a tracking key, in order.
pub open spec fn spec_kept_pairs(ps: Seq<(Seq<char>, Seq<char>)>) -> Seq<(Seq<char>, Seq<char>)>
    decreases ps.len(),
{
    if ps.len() == 0 {
        Seq::empty()
    } else {
        let rest = spec_kept_pairs(ps.drop_last());
        if spec_is_tracking_key(ps.last().0) {
            rest
        } else {
            rest.push(ps.last())
        }
    }
}

/// `x` inserted into `s` after every pair whose key is not greater.
pub open spec fn spec_insert_by_key(
    s: Seq<(Seq<char>, Seq<char>)>,
    x: (Seq<char>, Seq<char>),
) -> Seq<(Seq<char>, Seq<char>)>
    decreases s.len(),
{
    if s.len() == 0 {
        seq![x]
    } else if spec_seq_lt(x.0, s[0].0) {
        seq![x] + s
    } else {
        seq![s[0]] + spec_insert_by_key(s.drop_first(), x)
    }
}

/// The pairs stably sorted by key (equal keys keep their order).
pub open spec fn spec_sort_by_key(s: Seq<(Seq<char>, Seq<char>)>) -> Seq<(Seq<char>, Seq<char>)>
    decreases s.len(),
{
    if s.len() == 0 {
        Seq::empty()
    } else {
        spec_insert_by_key(spec_sort_by_key(s.drop_last()), s.last())
    }
}

/// `s` without its trailing `c`s.
pub open spec fn spec_trim_end_char(s: Seq<char>, c: char) -> Seq<char>
    decreases s.len(),
{
    if s.len() > 0 && s.last() == c {
        spec_trim_end_char(s.drop_last(), c)
    } else {
        s
    }
}

/// The URL after the query step: tracking parameters dropped, the others sorted
/// by key, and no query at all when none is left.
pub open spec fn spec_clean_query(u: Seq<char>) -> Seq<char> {
    let kept = spec_kept_pairs(spec_url_query_pairs(u));
    if kept.len() == 0 {
        spec_url_with_query(u, None)
    } else {
        spec_url_with_query(u, Some(spec_form_urlencode(spec_sort_by_key(kept))))
    }
}

/// The URL after the path step: trailing slashes dropped from a path longer
/// than one character.
pub open spec fn spec_clean_path(u: Seq<char>) -> Seq<char> {
    let p = spec_url_path(u);
    if p.len() > 1 && p.last() == '/' {
        spec_url_with_path(u, spec_trim_end_char(p, '/'))
    } else {
        u
    }
}

/// The normalized form of `href` found on the page `base`, or `None` for a
/// fragment-only reference, an href that does not resolve, or a scheme other
/// than `http` and `https`.
pub open spec fn spec_normalize(base: Seq<char>, href: Seq<char>) -> Option<Seq<char>> {
    let h = spec_trim(href);
    if h.len() > 0 && h[0] == '#' {
        None
    } else {
        match spec_url_join(base, h) {
            Err(_) => None,
            Ok(j) => if spec_url_scheme(j) == "http"@ || spec_url_scheme(j) == "https"@ {
                Some(spec_clean_path(spec_clean_query(spec_url_without_fragment(j))))
            } else {
                None
            },
        }
    }
}

/// No pair's key is a tracking key, and the keys are in ascending order.
pub open spec fn spec_clean_pairs(ps: Seq<(Seq<char>, Seq<char>)>) -> bool {
    &&& forall|i: int| 0 <= i < ps.len() ==> !spec_is_tracking_key(#[trigger] ps[i].0)
    &&& forall|i: int, j: int| 0 <= i < j < ps.len() ==> !spec_seq_lt(#[trigger] ps[j].0, #[trigger] ps[i].0)
}

proof fn lemma_kept_pairs_untracked(ps: Seq<(Seq<char>, Seq<char>)>)
    ensures
        forall|i: int| 0 <= i < spec_kept_pairs(ps).len() ==> !spec_is_tracking_key(#[trigger] spec_kept_pairs(ps)[i].0),
    decreases ps.len(),
{
    if ps.len() > 0 {
        lemma_kept_pairs_untracked(ps.drop_last());
        let rest = spec_kept_pairs(ps.drop_last());
        let k = spec_kept_pairs(ps);
        assert forall|i: int| 0 <= i < k.len() implies !spec_is_tracking_key(#[trigger] k[i].0) by {
            if i < rest.len() {
                assert(k[i] == rest[i]);
            }
        }
    }
}

proof fn lemma_insert_by_key_props(s: Seq<(Seq<char>, Seq<char>)>, x: (Seq<char>, Seq<char>))
    requires
        forall|i: int, j: int| 0 <= i < j < s.len() ==> !spec_seq_lt(#[trigger] s[j].0, #[trigger] s[i].0),
    ensures
        forall|k: int| 0 <= k < spec_insert_by_key(s, x).len()
            ==> (#[trigger] spec_insert_by_key(s, x)[k]) == x || s.contains(spec_insert_by_key(s, x)[k]),
        forall|i: int, j: int| 0 <= i < j < spec_insert_by_key(s, x).len()
            ==> !spec_seq_lt(#[trigger] spec_insert_by_key(s, x)[j].0, #[trigger] spec_insert_by_key(s, x)[i].0),
    decreases s.len(),
{
    let ins = spec_insert_by_key(s, x);
    if s.len() == 0 {
    } else if spec_seq_lt(x.0, s[0].0) {
        assert forall|k: int| 0 <= k < ins.len() implies (#[trigger] ins[k]) == x || s.contains(ins[k]) by {
            if k > 0 {
                assert(ins[k] == s[k - 1]);
            }
        }
        assert forall|i: int, j: int| 0 <= i < j < ins.len() implies !spec_seq_lt(#[trigger] ins[j].0, #[trigger] ins[i].0) by {
            assert(ins[j] == s[j - 1]);
            if i == 0 {
                assert(ins[0] == x);
                if spec_seq_lt(s[j - 1].0, x.0) {
                    lemma_seq_lt_transitive(s[j - 1].0, x.0, s[0].0);
                    if j - 1 == 0 {
                        lemma_seq_lt_irreflexive(s[0].0);
                    }
                }
            } else {
                assert(ins[i] == s[i - 1]);
            }
        }
    } else {
        let d = s.drop_first();
        assert forall|i: int, j: int| 0 <= i < j < d.len() implies !spec_seq_lt(#[trigger] d[j].0, #[trigger] d[i].0) by {
            assert(d[i] == s[i + 1] && d[j] == s[j + 1]);
        }
        lemma_insert_by_key_props(d, x);
        let di = spec_insert_by_key(d, x);
        assert forall|k: int| 0 <= k < ins.len() implies (#[trigger] ins[k]) == x || s.contains(ins[k]) by {
            if k == 0 {
                assert(ins[0] == s[0]);
            } else {
                assert(ins[k] == di[k - 1]);
                if d.contains(di[k - 1]) {
                    let m = choose|m: int| 0 <= m < d.len() && d[m] == di[k - 1];
                    assert(s[m + 1] == d[m]);
                }
            }
        }
        assert forall|i: int, j: int| 0 <= i < j < ins.len() implies !spec_seq_lt(#[trigger] ins[j].0, #[trigger] ins[i].0) by {
            assert(ins[j] == di[j - 1]);
            if i == 0 {
                assert(ins[0] == s[0]);
                if di[j - 1] != x {
                    let m = choose|m: int| 0 <= m < d.len() && d[m] == di[j - 1];
                    assert(s[m + 1] == d[m]);
                }
            } else {
                assert(ins[i] == di[i - 1]);
            }
        }
    }
}

proof fn lemma_sort_by_key_props(s: Seq<(Seq<char>, Seq<char>)>)
    ensures
        forall|k: int| 0 <= k < spec_sort_by_key(s).len() ==> s.contains(#[trigger] spec_sort_by_key(s)[k]),
        forall|i: int, j: int| 0 <= i < j < spec_sort_by_key(s).len()
            ==> !spec_seq_lt(#[trigger] spec_sort_by_key(s)[j].0, #[trigger] spec_sort_by_key(s)[i].0),
    decreases s.len(),
{
    if s.len() > 0 {
        let init = s.drop_last();
        lemma_sort_by_key_props(init);
        let si = spec_sort_by_key(init);
        lemma_insert_by_key_props(si, s.last());
        let srt = spec_sort_by_key(s);
        assert forall|k: int| 0 <= k < srt.len() implies s.contains(#[trigger] srt[k]) by {
            if srt[k] == s.last() {
                assert(s[s.len() - 1] == s.last());
            } else {
                let m = choose|m: int| 0 <= m < si.len() && si[m] == srt[k];
                let j = choose|j: int| 0 <= j < init.len() && init[j] == si[m];
                assert(s[j] == init[j]);
            }
        }
    }
}

/// Sorting the kept pairs gives clean pairs.
proof fn lemma_sorted_kept_clean(ps: Seq<(Seq<char>, Seq<char>)>)
    ensures
        spec_clean_pairs(spec_sort_by_key(spec_kept_pairs(ps))),
{
    let kept = spec_kept_pairs(ps);
    lemma_kept_pairs_untracked(ps);
    lemma_sort_by_key_props(kept);
    let srt = spec_sort_by_key(kept);
    assert forall|i: int| 0 <= i < srt.len() implies !spec_is_tracking_key(#[trigger] srt[i].0) by {
        assert(kept.contains(srt[i]));
        let m = choose|m: int| 0 <= m < kept.len() && kept[m] == srt[i];
    }
}

/// The query a normalized URL is given keeps no tracking parameter: whatever
/// the pairs, no key of the sorted kept pairs is `fbclid`, `gclid`, `mc_eid`,
/// `ref` or `igshid`, nor starts with `utm_`; and every kept pair was a pair of
/// the input.
pub proof fn lemma_normalized_query_untracked(ps: Seq<(Seq<char>, Seq<char>)>)
    ensures
        forall|i: int| 0 <= i < spec_sort_by_key(spec_kept_pairs(ps)).len()
            ==> spec_sort_by_key(spec_kept_pairs(ps))[i].0 != "fbclid"@
            && spec_sort_by_key(spec_kept_pairs(ps))[i].0 != "gclid"@
            && spec_sort_by_key(spec_kept_pairs(ps))[i].0 != "mc_eid"@
            && spec_sort_by_key(spec_kept_pairs(ps))[i].0 != "ref"@
            && spec_sort_by_key(spec_kept_pairs(ps))[i].0 != "igshid"@
            && !"utm_"@.is_prefix_of(#[trigger] spec_sort_by_key(spec_kept_pairs(ps))[i].0),
{
    lemma_sorted_kept_clean(ps);
}

fn is_tracking_key(k: &str) -> (res: bool)
    ensures
        res == spec_is_tracking_key(k@),
{
    let v = chars_of(k);
    starts_with(v.as_slice(), chars_of("utm_").as_slice())
        || chars_eq(v.as_slice(), chars_of("fbclid").as_slice())
        || chars_eq(v.as_slice(), chars_of("gclid").as_slice())
        || chars_eq(v.as_slice(), chars_of("mc_eid").as_slice())
        || chars_eq(v.as_slice(), chars_of("ref").as_slice())
        || chars_eq(v.as_slice(), chars_of("igshid").as_slice())
}

fn kept_pairs(ps: &Vec<(String, String)>) -> (res: Vec<(String, String)>)
    ensures
        pair_views(res@) == spec_kept_pairs(pair_views(ps@)),
{
    let ghost pv = pair_views(ps@);
    let mut res: Vec<(String, String)> = Vec::new();
    for i in 0..ps.len()
        invariant
            pv == pair_views(ps@),
            pair_views(res@) == spec_kept_pairs(pv.take(i as int)),
    {
        assert(pv.take(i + 1).drop_last() =~= pv.take(i as int));
        let (k, v) = &ps[i];
        if !is_tracking_key(k.as_str()) {
            let ghost before = res@;
            res.push((k.clone(), v.clone()));
            assert(pair_views(res@) =~= pair_views(before).push((k@, v@)));
        }
    }
    assert(pv.take(ps@.len() as int) =~= pv);
    res
}

proof fn lemma_insert_by_key_at(s: Seq<(Seq<char>, Seq<char>)>, x: (Seq<char>, Seq<char>), p: int)
    requires
        0 <= p <= s.len(),
        forall|q: int| 0 <= q < p ==> !spec_seq_lt(x.0, (#[trigger] s[q]).0),
        p < s.len() ==> spec_seq_lt(x.0, s[p].0),
    ensures
        spec_insert_by_key(s, x) == s.insert(p, x),
    decreases s.len(),
{
    if s.len() == 0 {
        assert(s.insert(p, x) =~= seq![x]);
    } else if p == 0 {
        assert(s.insert(p, x) =~= seq![x] + s);
    } else {
        let t = s.drop_first();
        assert forall|q: int| 0 <= q < p - 1 implies !spec_seq_lt(x.0, (#[trigger] t[q]).0) by {
            assert(t[q] == s[q + 1]);
        }
        lemma_insert_by_key_at(t, x, p - 1);
        assert(s.insert(p, x) =~= seq![s[0]] + t.insert(p - 1, x));
    }
}

/// The pairs stably sorted by key.
fn sort_by_key(ps: &Vec<(String, String)>) -> (res: Vec<(String, String)>)
    ensures
        pair_views(res@) == spec_sort_by_key(pair_views(ps@)),
{
    let ghost pv = pair_views(ps@);
    let mut res: Vec<(String, String)> = Vec::new();
    for i in 0..ps.len()
        invariant
            pv == pair_views(ps@),
            pair_views(res@) == spec_sort_by_key(pv.take(i as int)),
    {
        assert(pv.take(i + 1).drop_last() =~= pv.take(i as int));
        let (k, v) = &ps[i];
        let kc = chars_of(k.as_str());
        let ghost rv = pair_views(res@);
        let mut p: usize = 0;
        while p < res.len() && !chars_lt(kc.as_slice(), chars_of(res[p].0.as_str()).as_slice())
            invariant
                p <= res@.len(),
                rv == pair_views(res@),
                kc@ == k@,
                forall|q: int| 0 <= q < p ==> !spec_seq_lt(k@, (#[trigger] rv[q]).0),
            decreases res@.len() - p,
        {
            p = p + 1;
        }
        proof {
            lemma_insert_by_key_at(rv, (k@, v@), p as int);
        }
        let ghost before = res@;
        res.insert(p, (k.clone(), v.clone()));
        assert(pair_views(res@) =~= rv.insert(p as int, (k@, v@)));
    }
    assert(pv.take(ps@.len() as int) =~= pv);
    res
}

fn trim_end_char(s: &str, c: char) -> (res: String)
    ensures
        res@ == spec_trim_end_char(s@, c),
{
    let v = chars_of(s);
    let mut j: usize = v.len();
    assert(v@.take(j as int) =~= v@);
    while j > 0 && v[j - 1] == c
        invariant
            j <= v@.len(),
            v@ == s@,
            spec_trim_end_char(s@, c) == spec_trim_end_char(v@.take(j as int), c),
        decreases j,
    {
        assert(v@.take(j as int).drop_last() =~= v@.take(j - 1));
        j = j - 1;
    }
    string_of(crate::text::slice_chars(v.as_slice(), 0, j).as_slice())
}

/// Resolves `href` against the page `base` and normalizes it: the fragment
/// goes, tracking parameters (`utm_*`, `fbclid`, `gclid`, `mc_eid`, `ref`,
/// `igshid`) go, the other parameters are sorted by key, and trailing slashes
/// leave a path longer than one character. `None` for fragment-only
/// references, hrefs that do not resolve, and schemes other than http(s).
pub fn normalize(base: &WebUrl, href: &str) -> (res: Option<WebUrl>)
    ensures
        match res {
            Some(u) => spec_normalize(base@, href@) == Some(u@),
            None => spec_normalize(base@, href@) is None,
        },
        res matches Some(u) ==> (spec_url_scheme(u@) == "http"@ || spec_url_scheme(u@) == "https"@)
            && spec_url_fragment(u@) is None,
        res matches Some(u) ==> spec_clean_pairs(spec_url_query_pairs(u@)),
        res matches Some(u) ==> forall|i: int| 0 <= i < spec_url_query_pairs(u@).len()
            ==> spec_url_query_pairs(u@)[i].0 != "fbclid"@ && spec_url_query_pairs(u@)[i].0 != "gclid"@
            && spec_url_query_pairs(u@)[i].0 != "mc_eid"@ && spec_url_query_pairs(u@)[i].0 != "ref"@
            && spec_url_query_pairs(u@)[i].0 != "igshid"@ && !"utm_"@.is_prefix_of(#[trigger] spec_url_query_pairs(u@)[i].0),
{
    let h = trim(href);
    let hv = chars_of(h.as_str());
    if hv.len() > 0 && hv[0] == '#' {
        return None;
    }
    let joined = match base.join(h.as_str()) {
        Ok(u) => u,
        Err(_) => return None,
    };
    let scheme = chars_of(joined.scheme().as_str());
    if !(chars_eq(scheme.as_slice(), chars_of("http").as_slice())
        || chars_eq(scheme.as_slice(), chars_of("https").as_slice())) {
        return None;
    }
    let u1 = joined.without_fragment();
    let kept = kept_pairs(&u1.query_pairs());
    proof {
        lemma_sorted_kept_clean(spec_url_query_pairs(u1@));
    }
    let u2 = if kept.len() == 0 {
        u1.with_query(None)
    } else {
        let sorted = sort_by_key(&kept);
        let q = form_urlencode(&sorted);
        let qs = q.as_str();
        assert(opt_view(Some(qs)) == Some(spec_form_urlencode(pair_views(sorted@))));
        u1.with_query(Some(qs))
    };
    let path = u2.path();
    let pv = chars_of(path.as_str());
    if pv.len() > 1 && pv[pv.len() - 1] == '/' {
        let trimmed = trim_end_char(path.as_str(), '/');
        Some(u2.with_path(trimmed.as_str()))
    } else {
        Some(u2)
    }
}

/// Both URLs have a host, and it is the same host text (`www.foo.com` and
/// `foo.com` are different sites).
pub open spec fn spec_same_site(a: Seq<char>, b: Seq<char>) -> bool {
    match (spec_url_host_str(a), spec_url_host_str(b)) {
        (Some(x), Some(y)) => x == y,
        _ => false,
    }
}

/// Whether both URLs have the same host.
pub fn is_same_site(a: &WebUrl, b: &WebUrl) -> (res: bool)
    ensures
        res == spec_same_site(a@, b@),
{
    match (a.host_str(), b.host_str()) {
        (Some(x), Some(y)) => {
            let xv = chars_of(x.as_str());
            let yv = chars_of(y.as_str());
            chars_eq(xv.as_slice(), yv.as_slice())
        },
        _ => false,
    }
}

/// The same-site links among `hrefs` normalized against `base`, each once, in
/// order of first occurrence.
pub open spec fn spec_discover(base: Seq<char>, hrefs: Seq<Seq<char>>) -> Seq<Seq<char>>
    decreases hrefs.len(),
{
    if hrefs.len() == 0 {
        Seq::empty()
    } else {
        let rest = spec_discover(base, hrefs.drop_last());
        match spec_normalize(base, hrefs.last()) {
            Some(u) => if spec_same_site(base, u) && !rest.contains(u) {
                rest.push(u)
            } else {
                rest
            },
            None => rest,
        }
    }
}

/// The links of a page to its own site: each `<a href>` normalized against
/// `base`, kept when on the same host, each once in order of first occurrence.
pub fn discover_links(base: &WebUrl, dom: &Dom) -> (res: Vec<WebUrl>)
    ensures
        crate::model::url_views(res@) == spec_discover(
            base@,
            spec_present_opt(spec_dom_attrs(dom@, "a[href]"@, seq!["href"@])),
        ),
{
    let hrefs = dom.links();
    let ghost hv = str_views(hrefs@);
    let mut res: Vec<WebUrl> = Vec::new();
    for i in 0..hrefs.len()
        invariant
            hv == str_views(hrefs@),
            crate::model::url_views(res@) == spec_discover(base@, hv.take(i as int)),
    {
        assert(hv.take(i + 1).drop_last() =~= hv.take(i as int));
        assert(hv[i as int] == hrefs@[i as int]@);
        match normalize(base, hrefs[i].as_str()) {
            Some(u) => {
                if is_same_site(base, &u) {
                    let uc = chars_of(u.as_str());
                    let mut seen = false;
                    for k in 0..res.len()
                        invariant
                            uc@ == u@,
                            seen <==> exists|j: int| 0 <= j < k && (#[trigger] res@[j])@ == u@,
                    {
                        if chars_eq(chars_of(res[k].as_str()).as_slice(), uc.as_slice()) {
                            seen = true;
                        }
                    }
                    let ghost rv = crate::model::url_views(res@);
                    proof {
                        if seen {
                            let j = choose|j: int| 0 <= j < res@.len() && (#[trigger] res@[j])@ == u@;
                            assert(rv[j] == u@);
                        } else {
                            assert forall|j: int| 0 <= j < rv.len() implies rv[j] != u@ by {
                                assert(rv[j] == res@[j]@);
                            }
                        }
                    }
                    if !seen {
                        let ghost before = res@;
                        res.push(u);
                        assert(crate::model::url_views(res@) =~= crate::model::url_views(before).push(u@));
                    }
                }
            },
            None => {},
        }
    }
    assert(hv.take(hrefs@.len() as int) =~= hv);
    res
}

// ── Laws ────────────────────────────────────────────────────────────────────

/// The discovered links are all on the page's site, none occurs twice, and
/// each is the normalized form of one of the hrefs.
pub proof fn lemma_discovered_links_distinct_same_site(base: Seq<char>, hrefs: Seq<Seq<char>>)
    ensures
        forall|a: int, b: int| 0 <= a < b < spec_discover(base, hrefs).len()
            ==> spec_discover(base, hrefs)[a] != spec_discover(base, hrefs)[b],
        forall|a: int| 0 <= a < spec_discover(base, hrefs).len()
            ==> spec_same_site(base, #[trigger] spec_discover(base, hrefs)[a]),
        forall|a: int| 0 <= a < spec_discover(base, hrefs).len() ==> exists|h: int|
            0 <= h < hrefs.len() && spec_normalize(base, #[trigger] hrefs[h])
                == Some(#[trigger] spec_discover(base, hrefs)[a]),
    decreases hrefs.len(),
{
    if hrefs.len() > 0 {
        let init = hrefs.drop_last();
        lemma_discovered_links_distinct_same_site(base, init);
        let rest = spec_discover(base, init);
        let all = spec_discover(base, hrefs);
        assert forall|a: int| 0 <= a < all.len() implies exists|h: int|
            0 <= h < hrefs.len() && spec_normalize(base, #[trigger] hrefs[h]) == Some(#[trigger] all[a]) by {
            if a < rest.len() {
                assert(all[a] == rest[a]);
                let h = choose|h: int| 0 <= h < init.len() && spec_normalize(base, #[trigger] init[h]) == Some(#[trigger] rest[a]);
                assert(hrefs[h] == init[h]);
            } else {
                assert(hrefs[hrefs.len() - 1] == hrefs.last());
            }
        }
        assert forall|a: int, b: int| 0 <= a < b < all.len() implies all[a] != all[b] by {
            if b >= rest.len() {
                assert(all[a] == rest[a]);
            }
        }
    }
}

/// Normalizing never keeps a fragment-only reference.
pub proof fn lemma_fragment_only_rejected(base: Seq<char>, href: Seq<char>)
    requires
        spec_trim(href).len() > 0,
        spec_trim(href)[0] == '#',
    ensures
        spec_normalize(base, href) is None,
{
}

} // verus!
