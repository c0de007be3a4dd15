use vstd::prelude::*;
use crate::audit::{finding, text_message, PageAuditor};
use crate::model::{finding_views, spec_finding, Category, Finding, FindingView, PageData, Severity};
use crate::parser::dom::{spec_dom_attrs, spec_first_attr, spec_meta_selector, Dom};
use crate::text::{chars_of, spec_trim, trim};

verus! {

/// OpenGraph and Twitter card tags.
pub struct OpengraphAuditor;

/// Whether a tag value is present and not blank.
pub open spec fn spec_tag_present(v: Option<Seq<char>>) -> bool {
    match v {
        Some(s) => spec_trim(s).len() > 0,
        None => false,
    }
}

/// The finding for a missing or empty `og:` property.
pub open spec fn spec_og_finding(source: Seq<char>, property: Seq<char>, check_id: Seq<char>) -> Seq<FindingView> {
    if spec_tag_present(spec_first_attr(spec_dom_attrs(source, spec_meta_selector("property"@, property), seq!["content"@]))) {
        Seq::empty()
    } else {
        seq![spec_finding(check_id, Category::SocialTags, Severity::Info, 10,
            "Missing or empty OpenGraph tag: "@ + property)]
    }
}

/// The finding for a missing or empty `twitter:card`.
pub open spec fn spec_twitter_finding(source: Seq<char>) -> Seq<FindingView> {
    if spec_tag_present(spec_first_attr(spec_dom_attrs(source, spec_meta_selector("name"@, "twitter:card"@), seq!["content"@]))) {
        Seq::empty()
    } else {
        seq![spec_finding("twitter.card.missing"@, Category::SocialTags, Severity::Info, 10,
            "Missing or empty meta tag: twitter:card"@)]
    }
}

/// The social-tag findings, in the order `og:title`, `og:description`,
/// `og:image`, `og:url`, `twitter:card`.
pub open spec fn spec_opengraph_audit(source: Seq<char>) -> Seq<FindingView> {
    spec_og_finding(source, "og:title"@, "og.title.missing"@)
        + spec_og_finding(source, "og:description"@, "og.description.missing"@)
        + spec_og_finding(source, "og:image"@, "og.image.missing"@)
        + spec_og_finding(source, "og:url"@, "og.url.missing"@)
        + spec_twitter_finding(source)
}

/// The value of a `<meta {attr}="{key}">` tag's content.
pub open spec fn spec_meta_content(source: Seq<char>, attr: Seq<char>, key: Seq<char>) -> Option<Seq<char>> {
    spec_first_attr(spec_dom_attrs(source, spec_meta_selector(attr, key), seq!["content"@]))
}

/// A page without any social tag gets five Info findings, in order:
/// `og.title.missing`, `og.description.missing`, `og.image.missing`,
/// `og.url.missing`, `twitter.card.missing`; a page with all five tags
/// present and not blank gets none.
pub proof fn lemma_social_tag_checks(source: Seq<char>)
    ensures
        spec_meta_content(source, "property"@, "og:title"@) is None
            && spec_meta_content(source, "property"@, "og:description"@) is None
            && spec_meta_content(source, "property"@, "og:image"@) is None
            && spec_meta_content(source, "property"@, "og:url"@) is None
            && spec_meta_content(source, "name"@, "twitter:card"@) is None
            ==> spec_opengraph_audit(source).map_values(|f: FindingView| f.check_id) == seq![
                "og.title.missing"@,
                "og.description.missing"@,
                "og.image.missing"@,
                "og.url.missing"@,
                "twitter.card.missing"@,
            ] && forall|i: int| 0 <= i < 5 ==> (#[trigger] spec_opengraph_audit(source)[i]).severity == Severity::Info,
        spec_tag_present(spec_meta_content(source, "property"@, "og:title"@))
            && spec_tag_present(spec_meta_content(source, "property"@, "og:description"@))
            && spec_tag_present(spec_meta_content(source, "property"@, "og:image"@))
            && spec_tag_present(spec_meta_content(source, "property"@, "og:url"@))
            && spec_tag_present(spec_meta_content(source, "name"@, "twitter:card"@))
            ==> spec_opengraph_audit(source).len() == 0,
{
    let a = spec_opengraph_audit(source);
    assert(a.map_values(|f: FindingView| f.check_id) =~= a.map_values(|f: FindingView| f.check_id));
}

fn present(v: Option<String>) -> (res: bool)
    ensures
        res == spec_tag_present(crate::text::opt_string_view(v)),
{
    match v {
        Some(s) => chars_of(trim(s.as_str()).as_str()).len() > 0,
        None => false,
    }
}

fn check_og_tag(dom: &Dom, property: &str, check_id: &'static str, out: &mut Vec<Finding>)
    ensures
        finding_views(final(out)@) == finding_views(old(out)@) + spec_og_finding(dom@, property@, check_id@),
{
    let ghost start = finding_views(out@);
    if !present(dom.meta_property(property)) {
        out.push(finding(check_id, Category::SocialTags, Severity::Info, 10,
            text_message("Missing or empty OpenGraph tag: ", property)));
    }
    assert(finding_views(out@) =~= start + spec_og_finding(dom@, property@, check_id@));
}

fn check_twitter_card(dom: &Dom, out: &mut Vec<Finding>)
    ensures
        finding_views(final(out)@) == finding_views(old(out)@) + spec_twitter_finding(dom@),
{
    let ghost start = finding_views(out@);
    if !present(dom.meta_name("twitter:card")) {
        out.push(finding("twitter.card.missing", Category::SocialTags, Severity::Info, 10,
            "Missing or empty meta tag: twitter:card".to_owned()));
    }
    assert(finding_views(out@) =~= start + spec_twitter_finding(dom@));
}

impl PageAuditor for OpengraphAuditor {
    fn id(&self) -> (res: &'static str)
        ensures
            res@ == "opengraph"@,
    {
        "opengraph"
    }

    fn category(&self) -> (res: Category)
        ensures
            res == Category::SocialTags,
    {
        Category::SocialTags
    }

    fn audit(&self, page: &PageData, dom: &Dom) -> (res: Vec<Finding>)
        ensures
            finding_views(res@) == spec_opengraph_audit(dom@),
    {
        let mut out: Vec<Finding> = Vec::new();
        check_og_tag(dom, "og:title", "og.title.missing", &mut out);
        check_og_tag(dom, "og:description", "og.description.missing", &mut out);
        check_og_tag(dom, "og:image", "og.image.missing", &mut out);
        check_og_tag(dom, "og:url", "og.url.missing", &mut out);
        check_twitter_card(dom, &mut out);
        assert(finding_views(out@) =~= spec_opengraph_audit(dom@));
        out
    }
}

} // verus!
