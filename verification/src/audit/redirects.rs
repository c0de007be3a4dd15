use vstd::prelude::*;
use crate::audit::{count_message, finding, PageAuditor};
use crate::model::{finding_views, spec_finding, Category, Finding, FindingView, PageData, Severity};
use crate::parser::dom::Dom;
use crate::text::spec_decimal;

verus! {

/// Length of the redirect chain that led to a page.
pub struct RedirectsAuditor;

/// More than 5 hops is critical, more than 3 a warning.
pub open spec fn spec_redirects_audit(hops: nat) -> Seq<FindingView> {
    if hops > 5 {
        seq![spec_finding("redirects.chain-excessive"@, Category::Links, Severity::Critical, 30,
            "Redirect chain is "@ + spec_decimal(hops)
                + " hops (max 5); excessive redirects hurt crawlability"@)]
    } else if hops > 3 {
        seq![spec_finding("redirects.chain-long"@, Category::Links, Severity::Warning, 15,
            "Redirect chain is "@ + spec_decimal(hops) + " hops (recommended max 3)"@)]
    } else {
        Seq::empty()
    }
}

/// Redirect chains: more than 5 hops is Critical `redirects.chain-excessive`;
/// 4 or 5 hops is a Warning `redirects.chain-long`; up to 3 hops gives no
/// finding.
pub proof fn lemma_redirect_checks(hops: nat)
    ensures
        hops > 5 ==> spec_redirects_audit(hops).len() == 1
            && spec_redirects_audit(hops)[0].check_id == "redirects.chain-excessive"@
            && spec_redirects_audit(hops)[0].severity == Severity::Critical,
        3 < hops <= 5 ==> spec_redirects_audit(hops).len() == 1
            && spec_redirects_audit(hops)[0].check_id == "redirects.chain-long"@
            && spec_redirects_audit(hops)[0].severity == Severity::Warning,
        hops <= 3 ==> spec_redirects_audit(hops).len() == 0,
{
}

impl PageAuditor for RedirectsAuditor {
    fn id(&self) -> (res: &'static str)
        ensures
            res@ == "redirects"@,
    {
        "redirects"
    }

    fn category(&self) -> (res: Category)
        ensures
            res == Category::Links,
    {
        Category::Links
    }

    fn audit(&self, page: &PageData, dom: &Dom) -> (res: Vec<Finding>)
        ensures
            finding_views(res@) == spec_redirects_audit(page.redirect_chain@.len()),
    {
        let len = page.redirect_chain.len();
        let mut out: Vec<Finding> = Vec::new();
        if len > 5 {
            out.push(finding("redirects.chain-excessive", Category::Links, Severity::Critical, 30,
                count_message("Redirect chain is ", len, " hops (max 5); excessive redirects hurt crawlability")));
        } else if len > 3 {
            out.push(finding("redirects.chain-long", Category::Links, Severity::Warning, 15,
                count_message("Redirect chain is ", len, " hops (recommended max 3)")));
        }
        assert(finding_views(out@) =~= spec_redirects_audit(len as nat));
        out
    }
}

} // verus!
