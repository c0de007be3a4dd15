use vstd::prelude::*;
use crate::audit::{count_message, finding, text_message, PageAuditor};
use crate::model::{finding_views, spec_finding, Category, Finding, FindingView, PageData, Severity};
use crate::parser::dom::{spec_dom_attrs, spec_dom_texts, spec_first_attr, spec_first_text, Dom};
use crate::text::{chars_of, opt_string_view, spec_decimal, spec_trim, trim};
use crate::weburl::{spec_url_host, spec_url_parse, WebUrl};

verus! {

/// Title, meta description and canonical link.
pub struct MetadataAuditor;

/// The title finding, if any: missing, empty, under 30 or over 60 characters.
pub open spec fn spec_title_findings(title: Option<Seq<char>>) -> Seq<FindingView> {
    match title {
        None => seq![spec_finding("title.missing"@, Category::Metadata, Severity::Critical, 30, "Page has no <title> tag"@)],
        Some(t) => if spec_trim(t).len() == 0 {
            seq![spec_finding("title.empty"@, Category::Metadata, Severity::Critical, 30, "Title tag is empty"@)]
        } else if t.len() < 30 {
            seq![spec_finding("title.short"@, Category::Metadata, Severity::Warning, 15,
                "Title is "@ + spec_decimal(t.len()) + " chars (min 30)"@)]
        } else if t.len() > 60 {
            seq![spec_finding("title.long"@, Category::Metadata, Severity::Warning, 10,
                "Title is "@ + spec_decimal(t.len()) + " chars (max 60)"@)]
        } else {
            Seq::empty()
        },
    }
}

/// The description finding, if any: missing, empty, under 50 or over 160
/// characters.
pub open spec fn spec_description_findings(desc: Option<Seq<char>>) -> Seq<FindingView> {
    match desc {
        None => seq![spec_finding("description.missing"@, Category::Metadata, Severity::Critical, 20,
            "Page has no meta description"@)],
        Some(d) => if spec_trim(d).len() == 0 {
            seq![spec_finding("description.empty"@, Category::Metadata, Severity::Warning, 20,
                "Meta description is empty"@)]
        } else if d.len() < 50 {
            seq![spec_finding("description.short"@, Category::Metadata, Severity::Warning, 10,
                "Meta description is "@ + spec_decimal(d.len()) + " chars (min 50)"@)]
        } else if d.len() > 160 {
            seq![spec_finding("description.long"@, Category::Metadata, Severity::Warning, 5,
                "Meta description is "@ + spec_decimal(d.len()) + " chars (max 160)"@)]
        } else {
            Seq::empty()
        },
    }
}

/// The canonical finding, if any: missing, not a valid URL, or on another host
/// than the page.
pub open spec fn spec_canonical_findings(page_url: Seq<char>, canonical: Option<Seq<char>>) -> Seq<FindingView> {
    match canonical {
        None => seq![spec_finding("canonical.missing"@, Category::Metadata, Severity::Warning, 10,
            "Page has no canonical link"@)],
        Some(c) => match spec_url_parse(c) {
            Err(_) => seq![spec_finding("canonical.invalid"@, Category::Metadata, Severity::Warning, 10,
                "Canonical URL is not valid: "@ + c)],
            Ok(u) => if spec_url_host(u) != spec_url_host(page_url) {
                seq![spec_finding("canonical.off-host"@, Category::Metadata, Severity::Warning, 15,
                    "Canonical points to different host: "@ + c)]
            } else {
                Seq::empty()
            },
        },
    }
}

/// The title check (README): no title is Critical `title.missing`; a
/// non-blank title under 30 characters is a Warning `title.short`, over 60 a
/// Warning `title.long`; from 30 to 60 characters there is no finding.
pub proof fn lemma_title_checks(title: Option<Seq<char>>)
    ensures
        title is None ==> spec_title_findings(title).len() == 1
            && spec_title_findings(title)[0].check_id == "title.missing"@
            && spec_title_findings(title)[0].severity == Severity::Critical,
        title matches Some(t) && spec_trim(t).len() > 0 && t.len() < 30 ==> spec_title_findings(title).len() == 1
            && spec_title_findings(title)[0].check_id == "title.short"@
            && spec_title_findings(title)[0].severity == Severity::Warning,
        title matches Some(t) && spec_trim(t).len() > 0 && t.len() > 60 ==> spec_title_findings(title).len() == 1
            && spec_title_findings(title)[0].check_id == "title.long"@
            && spec_title_findings(title)[0].severity == Severity::Warning,
        title matches Some(t) && spec_trim(t).len() > 0 && 30 <= t.len() <= 60 ==> spec_title_findings(title).len() == 0,
{
}

/// The description check (README): no description is Critical
/// `description.missing`; a non-blank one under 50 characters is a Warning
/// `description.short`, over 160 a Warning `description.long`; from 50 to 160
/// characters there is no finding.
pub proof fn lemma_description_checks(desc: Option<Seq<char>>)
    ensures
        desc is None ==> spec_description_findings(desc).len() == 1
            && spec_description_findings(desc)[0].check_id == "description.missing"@
            && spec_description_findings(desc)[0].severity == Severity::Critical,
        desc matches Some(d) && spec_trim(d).len() > 0 && d.len() < 50 ==> spec_description_findings(desc).len() == 1
            && spec_description_findings(desc)[0].check_id == "description.short"@
            && spec_description_findings(desc)[0].severity == Severity::Warning,
        desc matches Some(d) && spec_trim(d).len() > 0 && d.len() > 160 ==> spec_description_findings(desc).len() == 1
            && spec_description_findings(desc)[0].check_id == "description.long"@
            && spec_description_findings(desc)[0].severity == Severity::Warning,
        desc matches Some(d) && spec_trim(d).len() > 0 && 50 <= d.len() <= 160 ==> spec_description_findings(desc).len() == 0,
{
}

/// The canonical check (README): no canonical link is a Warning
/// `canonical.missing`; one that parses to another host than the page's is a
/// Warning `canonical.off-host`; one on the page's host gives no finding.
pub proof fn lemma_canonical_link_checks(page_url: Seq<char>, canonical: Option<Seq<char>>)
    ensures
        canonical is None ==> spec_canonical_findings(page_url, canonical).len() == 1
            && spec_canonical_findings(page_url, canonical)[0].check_id == "canonical.missing"@
            && spec_canonical_findings(page_url, canonical)[0].severity == Severity::Warning,
        canonical matches Some(c) && spec_url_parse(c) matches Ok(u) && spec_url_host(u) != spec_url_host(page_url)
            ==> spec_canonical_findings(page_url, canonical).len() == 1
            && spec_canonical_findings(page_url, canonical)[0].check_id == "canonical.off-host"@
            && spec_canonical_findings(page_url, canonical)[0].severity == Severity::Warning,
        canonical matches Some(c) && spec_url_parse(c) matches Ok(u) && spec_url_host(u) == spec_url_host(page_url)
            ==> spec_canonical_findings(page_url, canonical).len() == 0,
{
}

/// All metadata findings of a page: title, then description, then canonical.
pub open spec fn spec_metadata_findings(page_url: Seq<char>, source: Seq<char>) -> Seq<FindingView> {
    spec_title_findings(spec_first_text(spec_dom_texts(source, "title"@)))
        + spec_description_findings(spec_first_attr(
            spec_dom_attrs(source, "meta[name='description']"@, seq!["content"@]),
        ))
        + spec_canonical_findings(page_url, spec_first_attr(
            spec_dom_attrs(source, "link[rel='canonical']"@, seq!["href"@]),
        ))
}

fn audit_title(dom: &Dom, out: &mut Vec<Finding>)
    ensures
        finding_views(final(out)@) == finding_views(old(out)@) + spec_title_findings(
            spec_first_text(spec_dom_texts(dom@, "title"@)),
        ),
{
    let ghost start = finding_views(out@);
    match dom.title() {
        None => {
            out.push(finding("title.missing", Category::Metadata, Severity::Critical, 30, "Page has no <title> tag".to_owned()));
        },
        Some(t) => {
            let n = chars_of(t.as_str()).len();
            if chars_of(trim(t.as_str()).as_str()).len() == 0 {
                out.push(finding("title.empty", Category::Metadata, Severity::Critical, 30, "Title tag is empty".to_owned()));
            } else if n < 30 {
                out.push(finding("title.short", Category::Metadata, Severity::Warning, 15,
                    count_message("Title is ", n, " chars (min 30)")));
            } else if n > 60 {
                out.push(finding("title.long", Category::Metadata, Severity::Warning, 10,
                    count_message("Title is ", n, " chars (max 60)")));
            }
        },
    }
    assert(finding_views(out@) =~= start + spec_title_findings(spec_first_text(spec_dom_texts(dom@, "title"@))));
}

fn audit_description(dom: &Dom, out: &mut Vec<Finding>)
    ensures
        finding_views(final(out)@) == finding_views(old(out)@) + spec_description_findings(
            spec_first_attr(spec_dom_attrs(dom@, "meta[name='description']"@, seq!["content"@])),
        ),
{
    let ghost start = finding_views(out@);
    match dom.meta_description() {
        None => {
            out.push(finding("description.missing", Category::Metadata, Severity::Critical, 20,
                "Page has no meta description".to_owned()));
        },
        Some(d) => {
            let n = chars_of(d.as_str()).len();
            if chars_of(trim(d.as_str()).as_str()).len() == 0 {
                out.push(finding("description.empty", Category::Metadata, Severity::Warning, 20,
                    "Meta description is empty".to_owned()));
            } else if n < 50 {
                out.push(finding("description.short", Category::Metadata, Severity::Warning, 10,
                    count_message("Meta description is ", n, " chars (min 50)")));
            } else if n > 160 {
                out.push(finding("description.long", Category::Metadata, Severity::Warning, 5,
                    count_message("Meta description is ", n, " chars (max 160)")));
            }
        },
    }
    assert(finding_views(out@) =~= start + spec_description_findings(
        spec_first_attr(spec_dom_attrs(dom@, "meta[name='description']"@, seq!["content"@])),
    ));
}

fn audit_canonical(page: &PageData, dom: &Dom, out: &mut Vec<Finding>)
    ensures
        finding_views(final(out)@) == finding_views(old(out)@) + spec_canonical_findings(
            page.url@,
            spec_first_attr(spec_dom_attrs(dom@, "link[rel='canonical']"@, seq!["href"@])),
        ),
{
    let ghost start = finding_views(out@);
    match dom.canonical() {
        None => {
            out.push(finding("canonical.missing", Category::Metadata, Severity::Warning, 10,
                "Page has no canonical link".to_owned()));
        },
        Some(c) => {
            match WebUrl::parse(c.as_str()) {
                Err(_) => {
                    out.push(finding("canonical.invalid", Category::Metadata, Severity::Warning, 10,
                        text_message("Canonical URL is not valid: ", c.as_str())));
                },
                Ok(u) => {
                    if !same_host(&u, &page.url) {
                        out.push(finding("canonical.off-host", Category::Metadata, Severity::Warning, 15,
                            text_message("Canonical points to different host: ", c.as_str())));
                    }
                },
            }
        },
    }
    assert(finding_views(out@) =~= start + spec_canonical_findings(
        page.url@,
        spec_first_attr(spec_dom_attrs(dom@, "link[rel='canonical']"@, seq!["href"@])),
    ));
}

/// Whether two URLs have the same host (`url::Url::host`, compared as values).
pub fn same_host(a: &WebUrl, b: &WebUrl) -> (res: bool)
    ensures
        res == (spec_url_host(a@) == spec_url_host(b@)),
{
    match (a.host(), b.host()) {
        (Some((ka, ha)), Some((kb, hb))) => {
            let x = chars_of(ha.as_str());
            let y = chars_of(hb.as_str());
            ka == kb && crate::text::chars_eq(x.as_slice(), y.as_slice())
        },
        (None, None) => true,
        _ => false,
    }
}

impl PageAuditor for MetadataAuditor {
    fn id(&self) -> (res: &'static str)
        ensures
            res@ == "metadata"@,
    {
        "metadata"
    }

    fn category(&self) -> (res: Category)
        ensures
            res == Category::Metadata,
    {
        Category::Metadata
    }

    fn audit(&self, page: &PageData, dom: &Dom) -> (res: Vec<Finding>)
        ensures
            finding_views(res@) == spec_metadata_findings(page.url@, dom@),
    {
        let mut out: Vec<Finding> = Vec::new();
        audit_title(dom, &mut out);
        audit_description(dom, &mut out);
        audit_canonical(page, dom, &mut out);
        assert(finding_views(out@) =~= spec_metadata_findings(page.url@, dom@));
        out
    }
}

} // verus!
