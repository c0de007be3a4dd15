use vstd::prelude::*;
use crate::audit::{count_message, finding, PageAuditor};
use crate::audit::metadata::same_host;
use crate::model::{finding_views, spec_finding, url_views, Category, Finding, FindingView, PageData, Severity};
use crate::parser::dom::{spec_dom_attrs, spec_present_opt, Dom};
use crate::text::{append_str, chars_eq, chars_of, spec_decimal, spec_trim, string_of};
use crate::weburl::{
    spec_url_fragment, spec_url_host, spec_url_join, spec_url_path, spec_url_query, WebUrl,
};

verus! {

/// The `<link rel="canonical">` of a page, against the page itself.
pub struct CanonicalAuditor;

/// The trimmed canonical hrefs of a document.
pub open spec fn spec_canonical_hrefs(source: Seq<char>) -> Seq<Seq<char>> {
    spec_present_opt(spec_dom_attrs(source, "link[rel='canonical']"@, seq!["href"@])).map_values(
        |h: Seq<char>| spec_trim(h),
    )
}

/// The canonical findings: more than one canonical link; the first one,
/// resolved against the page, naming a URL the fetch was redirected away from;
/// or naming another page of the same host. An off-host canonical is left to
/// the metadata check.
pub open spec fn spec_canonical_audit(page_url: Seq<char>, chain: Seq<Seq<char>>, hrefs: Seq<Seq<char>>) -> Seq<FindingView> {
    if hrefs.len() == 0 {
        Seq::empty()
    } else {
        let multi = if hrefs.len() > 1 {
            seq![spec_finding("canonical.multiple"@, Category::Metadata, Severity::Warning, 10,
                "Page has "@ + spec_decimal(hrefs.len()) + " <link rel=\"canonical\"> elements; only one is expected"@)]
        } else {
            Seq::empty()
        };
        match spec_url_join(page_url, hrefs[0]) {
            Err(_) => multi,
            Ok(r) => if chain.contains(r) {
                multi.push(spec_finding("canonical.redirect-mismatch"@, Category::Metadata, Severity::Warning, 15,
                    "Canonical URL "@ + r + " matches a redirected URL in the chain"@))
            } else if spec_url_host(r) == spec_url_host(page_url) && !(spec_url_path(r) == spec_url_path(page_url)
                && spec_url_query(r) == spec_url_query(page_url) && spec_url_fragment(r) == spec_url_fragment(page_url)) {
                multi.push(spec_finding("canonical.not-self-referential"@, Category::Metadata, Severity::Info, 5,
                    "Canonical URL "@ + r + " differs from the page URL "@ + page_url
                        + " (same host, different path/query/fragment)"@))
            } else {
                multi
            },
        }
    }
}

/// Whether some finding has the check id `id`.
pub open spec fn spec_has_check(fs: Seq<FindingView>, id: Seq<char>) -> bool {
    exists|i: int| 0 <= i < fs.len() && (#[trigger] fs[i]).check_id == id
}

/// A canonical that resolves to another URL of the page's host (a different
/// path, query or fragment) and is not a URL the fetch was redirected away
/// from is reported as not self-referential (Info, penalty 5); one that is
/// the page's own URL, path, query and fragment alike, is not; and one that
/// names a URL of the redirect chain is reported as a redirect mismatch.
pub proof fn lemma_canonical_self_reference(
    page_url: Seq<char>,
    chain: Seq<Seq<char>>,
    hrefs: Seq<Seq<char>>,
    r: Seq<char>,
)
    requires
        hrefs.len() > 0,
        spec_url_join(page_url, hrefs[0]) == Ok::<Seq<char>, Seq<char>>(r),
    ensures
        !chain.contains(r) && spec_url_host(r) == spec_url_host(page_url) && (spec_url_path(r)
            != spec_url_path(page_url) || spec_url_query(r) != spec_url_query(page_url)
            || spec_url_fragment(r) != spec_url_fragment(page_url)) ==> exists|i: int|
            0 <= i < spec_canonical_audit(page_url, chain, hrefs).len()
                && (#[trigger] spec_canonical_audit(page_url, chain, hrefs)[i]).check_id
                == "canonical.not-self-referential"@
                && spec_canonical_audit(page_url, chain, hrefs)[i].severity == Severity::Info
                && spec_canonical_audit(page_url, chain, hrefs)[i].penalty == 5,
        spec_url_path(r) == spec_url_path(page_url) && spec_url_query(r) == spec_url_query(page_url)
            && spec_url_fragment(r) == spec_url_fragment(page_url) ==> !spec_has_check(
            spec_canonical_audit(page_url, chain, hrefs),
            "canonical.not-self-referential"@,
        ),
        chain.contains(r) ==> spec_has_check(spec_canonical_audit(page_url, chain, hrefs), "canonical.redirect-mismatch"@),
{
    reveal_strlit("canonical.multiple");
    reveal_strlit("canonical.not-self-referential");
    reveal_strlit("canonical.redirect-mismatch");
    let fs = spec_canonical_audit(page_url, chain, hrefs);
    let multi = if hrefs.len() > 1 {
        seq![spec_finding("canonical.multiple"@, Category::Metadata, Severity::Warning, 10,
            "Page has "@ + spec_decimal(hrefs.len()) + " <link rel=\"canonical\"> elements; only one is expected"@)]
    } else {
        Seq::empty()
    };
    if !chain.contains(r) && spec_url_host(r) == spec_url_host(page_url) && (spec_url_path(r)
        != spec_url_path(page_url) || spec_url_query(r) != spec_url_query(page_url)
        || spec_url_fragment(r) != spec_url_fragment(page_url)) {
        assert(fs[fs.len() - 1].check_id == "canonical.not-self-referential"@);
    }
    if chain.contains(r) {
        assert(fs[fs.len() - 1].check_id == "canonical.redirect-mismatch"@);
    }
    if spec_url_path(r) == spec_url_path(page_url) && spec_url_query(r) == spec_url_query(page_url)
        && spec_url_fragment(r) == spec_url_fragment(page_url) && spec_has_check(fs, "canonical.not-self-referential"@) {
        let i = choose|i: int| 0 <= i < fs.len() && (#[trigger] fs[i]).check_id == "canonical.not-self-referential"@;
        assert("canonical.multiple"@.len() != "canonical.not-self-referential"@.len());
        assert("canonical.redirect-mismatch"@.len() != "canonical.not-self-referential"@.len());
        if i < multi.len() {
            assert(fs[i] == multi[i]);
        } else {
            assert(chain.contains(r));
        }
        assert(false);
    }
}

fn opt_eq(a: Option<String>, b: Option<String>) -> (res: bool)
    ensures
        res == (crate::text::opt_string_view(a) == crate::text::opt_string_view(b)),
{
    match (a, b) {
        (Some(x), Some(y)) => chars_eq(chars_of(x.as_str()).as_slice(), chars_of(y.as_str()).as_slice()),
        (None, None) => true,
        _ => false,
    }
}

fn chain_contains(chain: &Vec<WebUrl>, u: &WebUrl) -> (res: bool)
    ensures
        res == url_views(chain@).contains(u@),
{
    let uc = chars_of(u.as_str());
    for k in 0..chain.len()
        invariant
            uc@ == u@,
            forall|j: int| 0 <= j < k ==> chain@[j]@ != u@,
    {
        if chars_eq(chars_of(chain[k].as_str()).as_slice(), uc.as_slice()) {
            assert(url_views(chain@)[k as int] == u@);
            return true;
        }
    }
    assert forall|j: int| 0 <= j < url_views(chain@).len() implies url_views(chain@)[j] != u@ by {
        assert(url_views(chain@)[j] == chain@[j]@);
    }
    false
}

impl PageAuditor for CanonicalAuditor {
    fn id(&self) -> (res: &'static str)
        ensures
            res@ == "canonical"@,
    {
        "canonical"
    }

    fn category(&self) -> (res: Category)
        ensures
            res == Category::Metadata,
    {
        Category::Metadata
    }

    fn audit(&self, page: &PageData, dom: &Dom) -> (res: Vec<Finding>)
        ensures
            finding_views(res@) == spec_canonical_audit(page.url@, url_views(page.redirect_chain@), spec_canonical_hrefs(dom@)),
    {
        let mut out: Vec<Finding> = Vec::new();
        let hrefs = dom.canonicals();
        let ghost hv = crate::parser::dom::str_views(hrefs@);
        if hrefs.len() == 0 {
            assert(finding_views(out@) =~= Seq::<FindingView>::empty());
            return out;
        }
        if hrefs.len() > 1 {
            out.push(finding("canonical.multiple", Category::Metadata, Severity::Warning, 10,
                count_message("Page has ", hrefs.len(), " <link rel=\"canonical\"> elements; only one is expected")));
        }
        assert(hv[0] == hrefs@[0]@);
        let ghost multi = finding_views(out@);
        let resolved = match page.url.join(hrefs[0].as_str()) {
            Ok(u) => u,
            Err(_) => {
                return out;
            },
        };
        if chain_contains(&page.redirect_chain, &resolved) {
            let mut m: Vec<char> = Vec::new();
            append_str(&mut m, "Canonical URL ");
            append_str(&mut m, resolved.as_str());
            append_str(&mut m, " matches a redirected URL in the chain");
            let ghost before = out@;
            out.push(finding("canonical.redirect-mismatch", Category::Metadata, Severity::Warning, 15,
                string_of(m.as_slice())));
            assert(finding_views(out@) =~= multi.push(out@.last()@));
            return out;
        }
        if same_host(&resolved, &page.url) {
            let same_path = chars_eq(chars_of(resolved.path().as_str()).as_slice(),
                chars_of(page.url.path().as_str()).as_slice());
            let same_query = opt_eq(resolved.query(), page.url.query());
            let same_fragment = opt_eq(resolved.fragment(), page.url.fragment());
            if !(same_path && same_query && same_fragment) {
                let mut m: Vec<char> = Vec::new();
                append_str(&mut m, "Canonical URL ");
                append_str(&mut m, resolved.as_str());
                append_str(&mut m, " differs from the page URL ");
                append_str(&mut m, page.url.as_str());
                append_str(&mut m, " (same host, different path/query/fragment)");
                out.push(finding("canonical.not-self-referential", Category::Metadata, Severity::Info, 5,
                    string_of(m.as_slice())));
                assert(finding_views(out@) =~= multi.push(out@.last()@));
            }
        }
        out
    }
}

} // verus!
