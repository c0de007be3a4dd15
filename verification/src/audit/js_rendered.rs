use vstd::prelude::*;
use crate::audit::finding;
use crate::model::{finding_views, spec_finding, Category, Finding, FindingView, PageData, Severity};
use crate::parser::dom::{spec_content_selector, spec_dom_text_nodes, spec_dom_texts, spec_visible_len, Dom};

verus! {

/// Pages whose content only appears once scripts run: little visible text for
/// the size of the HTML, and few content-bearing tags.
pub struct JsRenderedAuditor;

/// How many content tags a page built on the server is expected to have at
/// least, by default.
pub const DEFAULT_MIN_CONTENT_TAGS: usize = 3;

/// A warning when the HTML is not empty, the share of visible text is below
/// the threshold, and there are fewer content tags than expected.
pub open spec fn spec_js_rendered_verdict(
    html_len: nat,
    ratio_below_threshold: bool,
    tag_count: nat,
    min_content_tags: nat,
) -> Seq<FindingView> {
    if html_len > 0 && ratio_below_threshold && tag_count < min_content_tags {
        seq![spec_finding("js-rendered.likely"@, Category::Structure, Severity::Warning, 10,
            "page appears to require JS rendering — results may be incomplete"@)]
    } else {
        Seq::empty()
    }
}

impl JsRenderedAuditor {
    /// The check's identifier.
    pub fn id(&self) -> (res: &'static str)
        ensures
            res@ == "js-rendered"@,
    {
        "js-rendered"
    }

    /// The category of its findings.
    pub fn category(&self) -> (res: Category)
        ensures
            res == Category::Structure,
    {
        Category::Structure
    }

    /// What the check reads of a page: the bytes of its HTML, the bytes of its
    /// visible text, and its number of content-bearing tags.
    pub fn measure(&self, page: &PageData, dom: &Dom) -> (res: (usize, usize, usize))
        ensures
            res.0 == vstd::utf8::encode_utf8(page.html@).len() as usize,
            res.1 == (if spec_visible_len(spec_dom_text_nodes(dom@)) <= usize::MAX {
                spec_visible_len(spec_dom_text_nodes(dom@))
            } else {
                usize::MAX as nat
            }),
            res.2 == match spec_dom_texts(dom@, spec_content_selector()) {
                Some(ts) => ts.len(),
                None => 0,
            },
    {
        (page.html.as_str().len(), dom.visible_text_len(), dom.content_tag_count())
    }

    /// The finding, given the measurements; whether the visible-text ratio is
    /// below the threshold is computed by the caller.
    pub fn verdict(
        &self,
        html_len: usize,
        ratio_below_threshold: bool,
        tag_count: usize,
        min_content_tags: usize,
    ) -> (res: Vec<Finding>)
        ensures
            finding_views(res@) == spec_js_rendered_verdict(
                html_len as nat,
                ratio_below_threshold,
                tag_count as nat,
                min_content_tags as nat,
            ),
    {
        let mut out: Vec<Finding> = Vec::new();
        if html_len > 0 && ratio_below_threshold && tag_count < min_content_tags {
            out.push(finding("js-rendered.likely", Category::Structure, Severity::Warning, 10,
                "page appears to require JS rendering — results may be incomplete".to_owned()));
        }
        assert(finding_views(out@) =~= spec_js_rendered_verdict(
            html_len as nat,
            ratio_below_threshold,
            tag_count as nat,
            min_content_tags as nat,
        ));
        out
    }
}

} // verus!
