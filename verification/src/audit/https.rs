use vstd::prelude::*;
use crate::audit::{finding, text_message, PageAuditor};
use crate::model::{finding_views, spec_finding, Category, Finding, FindingView, PageData, Severity};
use crate::parser::dom::{spec_resources_upto, str_views, Dom};
use crate::text::{chars_eq, chars_of, starts_with};
use crate::weburl::spec_url_scheme;

verus! {

/// HTTPS and mixed content.
pub struct HttpsAuditor;

/// The mixed-content findings: one per resource URL that starts with `http://`.
pub open spec fn spec_mixed_content(urls: Seq<Seq<char>>) -> Seq<FindingView>
    decreases urls.len(),
{
    if urls.len() == 0 {
        Seq::empty()
    } else {
        let rest = spec_mixed_content(urls.drop_last());
        if "http://"@.is_prefix_of(urls.last()) {
            rest.push(spec_finding("https.mixed-content"@, Category::Security, Severity::Warning, 20,
                "Mixed content: http resource on https page — "@ + urls.last()))
        } else {
            rest
        }
    }
}

/// An `http` page gets one critical finding and nothing else; an `https` page
/// gets one finding per `http://` resource.
pub open spec fn spec_https_audit(page_url: Seq<char>, source: Seq<char>) -> Seq<FindingView> {
    let scheme = spec_url_scheme(page_url);
    if scheme != "https"@ {
        seq![spec_finding("https.insecure"@, Category::Security, Severity::Critical, 40,
            "Page served over "@ + scheme + "; HTTPS required"@)]
    } else {
        spec_mixed_content(spec_resources_upto(source, 10))
    }
}

/// A page not served over https gets exactly one finding, Critical
/// `https.insecure`; an https page never gets that finding.
pub proof fn lemma_https_checks(page_url: Seq<char>, source: Seq<char>)
    ensures
        spec_url_scheme(page_url) != "https"@ ==> spec_https_audit(page_url, source).len() == 1
            && spec_https_audit(page_url, source)[0].check_id == "https.insecure"@
            && spec_https_audit(page_url, source)[0].severity == Severity::Critical,
{
}

impl PageAuditor for HttpsAuditor {
    fn id(&self) -> (res: &'static str)
        ensures
            res@ == "https"@,
    {
        "https"
    }

    fn category(&self) -> (res: Category)
        ensures
            res == Category::Security,
    {
        Category::Security
    }

    fn audit(&self, page: &PageData, dom: &Dom) -> (res: Vec<Finding>)
        ensures
            finding_views(res@) == spec_https_audit(page.url@, dom@),
    {
        let mut out: Vec<Finding> = Vec::new();
        let scheme = page.url.scheme();
        if !chars_eq(chars_of(scheme.as_str()).as_slice(), chars_of("https").as_slice()) {
            let mut m: Vec<char> = Vec::new();
            crate::text::append_str(&mut m, "Page served over ");
            crate::text::append_str(&mut m, scheme.as_str());
            crate::text::append_str(&mut m, "; HTTPS required");
            out.push(finding("https.insecure", Category::Security, Severity::Critical, 40,
                crate::text::string_of(m.as_slice())));
            assert(finding_views(out@) =~= spec_https_audit(page.url@, dom@));
            return out;
        }
        let urls = dom.resource_urls();
        let ghost uv = str_views(urls@);
        for i in 0..urls.len()
            invariant
                uv == str_views(urls@),
                finding_views(out@) == spec_mixed_content(uv.take(i as int)),
        {
            assert(uv.take(i + 1).drop_last() =~= uv.take(i as int));
            assert(uv[i as int] == urls@[i as int]@);
            if starts_with(chars_of(urls[i].as_str()).as_slice(), chars_of("http://").as_slice()) {
                let ghost before = finding_views(out@);
                out.push(finding("https.mixed-content", Category::Security, Severity::Warning, 20,
                    text_message("Mixed content: http resource on https page — ", urls[i].as_str())));
                assert(finding_views(out@) =~= before.push(out@.last()@));
            }
        }
        assert(uv.take(urls@.len() as int) =~= uv);
        out
    }
}

} // verus!
