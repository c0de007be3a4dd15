use sandslash::audit::canonical::CanonicalAuditor;
use sandslash::audit::headings::HeadingsAuditor;
use sandslash::audit::https::HttpsAuditor;
use sandslash::audit::images::ImagesAuditor;
use sandslash::audit::js_rendered::{JsRenderedAuditor, DEFAULT_MIN_CONTENT_TAGS};
use sandslash::audit::metadata::MetadataAuditor;
use sandslash::audit::opengraph::OpengraphAuditor;
use sandslash::audit::redirects::RedirectsAuditor;
use sandslash::audit::PageAuditor;
use sandslash::crawler::engine::audit_page;
use sandslash::model::{Category, Finding, Headers, PageData, Severity};
use sandslash::parser::Dom;
use sandslash::weburl::WebUrl;

fn page_with_chain(url: &str, redirect_chain: Vec<&str>) -> PageData {
    PageData {
        url: WebUrl::parse(url).expect("invariant: valid URL in test"),
        status: 200,
        redirect_chain: redirect_chain.into_iter().map(|u| WebUrl::parse(u).expect("invariant: valid URL in test")).collect(),
        html: String::new(),
        headers: Headers::default(),
        depth: 0,
    }
}

fn page(url: &str) -> PageData {
    page_with_chain(url, vec![])
}

fn ids(findings: &[Finding]) -> Vec<&str> {
    findings.iter().map(|f| f.check_id.as_str()).collect()
}

// ── Pages written for these checks ──────────────────────────────────────────

const BASIC: &str = r#"<!DOCTYPE html>
<html>
<head>
  <title>Basic Page Title That Is Long Enough</title>
  <meta name="description" content="A basic page used to exercise every audit: it has a title, a description and more.">
  <link rel="canonical" href="https://example.com/">
  <meta property="og:title" content="Basic Page">
  <meta property="og:description" content="A basic page">
  <meta property="og:image" content="https://example.com/og.png">
  <meta property="og:url" content="https://example.com/">
  <meta name="twitter:card" content="summary">
</head>
<body>
  <h1>Basic Page</h1>
  <p>This page has enough visible text to look like a page rendered on the server.</p>
  <h2>Details</h2>
  <p>Another paragraph with some more words in it, so that the text outweighs the markup.</p>
  <p>A third paragraph, and a link to the <a href="/about">about page</a>.</p>
  <img src="/photo.jpg" alt="A photo">
</body>
</html>"#;

const EMPTY_ROOT: &str = r#"<!DOCTYPE html>
<html>
<head>
  <title>App</title>
  <script src="/static/js/bundle.0123456789abcdef.js"></script>
  <script>window.__INITIAL_STATE__ = {"user":null,"settings":{"theme":"dark","locale":"en"},"flags":[1,2,3,4,5,6,7,8,9,10]};</script>
  <style>body { margin: 0; padding: 0; font-family: sans-serif; } #root { min-height: 100vh; }</style>
</head>
<body>
  <noscript>You need to enable JavaScript to run this app.</noscript>
  <div id="root"></div>
</body>
</html>"#;

const OG_ALL: &str = r#"<!DOCTYPE html>
<html><head>
  <meta property="og:title" content="Title">
  <meta property="og:description" content="Description">
  <meta property="og:image" content="https://example.com/image.png">
  <meta property="og:url" content="https://example.com/">
  <meta name="twitter:card" content="summary_large_image">
</head><body></body></html>"#;

const OG_NONE: &str = "<!DOCTYPE html><html><head><title>No tags</title></head><body></body></html>";

const OG_MISSING_IMAGE: &str = r#"<!DOCTYPE html>
<html><head>
  <meta property="og:title" content="Title">
  <meta property="og:description" content="Description">
  <meta property="og:url" content="https://example.com/">
  <meta name="twitter:card" content="summary">
</head><body></body></html>"#;

const OG_EMPTY_CONTENT: &str = r#"<!DOCTYPE html>
<html>
<head>
  <meta property="og:title" content="">
  <meta property="og:description" content="">
  <meta property="og:image" content="">
  <meta property="og:url" content="">
  <meta name="twitter:card" content="">
</head>
<body></body>
</html>"#;

const IMAGES_MISSING_ALT: &str = r#"<html><body><img src="/photo.jpg"></body></html>"#;
const IMAGES_EMPTY_ALT: &str = r#"<html><body><img src="/spacer.gif" alt=""></body></html>"#;
const IMAGES_OK: &str = r#"<html><body><img src="/cat.jpg" alt="A cat sleeping on a sofa"></body></html>"#;
const IMAGES_DATA_URI: &str = r#"<html><body><img src="data:image/png;base64,iVBORw0KGgo="></body></html>"#;
const IMAGES_SVG: &str = r#"<html><body><svg width="10" height="10"><circle cx="5" cy="5" r="4"></circle></svg></body></html>"#;

const CANONICAL_SELF: &str = r#"<html><head><link rel="canonical" href="https://example.com/"></head><body></body></html>"#;
const CANONICAL_MULTIPLE: &str = r#"<html><head>
  <link rel="canonical" href="https://example.com/page-a">
  <link rel="canonical" href="https://example.com/page-b">
</head><body></body></html>"#;
const CANONICAL_REDIRECTED: &str = r#"<html><head><link rel="canonical" href="https://example.com/old"></head><body></body></html>"#;
const CANONICAL_RELATIVE: &str = r#"<html><head><link rel="canonical" href="/landing"></head><body></body></html>"#;

const MIXED_CONTENT: &str = r#"<!DOCTYPE html>
<html><head>
  <link rel="stylesheet" href="http://cdn.example.com/style.css">
  <script src="http://cdn.example.com/app.js"></script>
</head><body>
  <img src="http://cdn.example.com/img.jpg" alt="img">
  <iframe src="http://frames.example.com/frame"></iframe>
  <audio src="http://media.example.com/a.mp3"></audio>
  <video src="http://media.example.com/v.mp4"><source src="http://media.example.com/s.mp4"></video>
  <video><track src="http://media.example.com/subs.vtt"></video>
  <embed src="http://media.example.com/plugin.swf">
  <object data="http://media.example.com/file.pdf"></object>
</body></html>"#;

const CLEAN: &str = r#"<!DOCTYPE html>
<html><head>
  <link rel="stylesheet" href="https://cdn.example.com/style.css">
  <script src="//cdn.example.com/app.js"></script>
</head><body>
  <img src="https://cdn.example.com/img.jpg" alt="img">
  <iframe src="https://frames.example.com/frame"></iframe>
  <object data="//media.example.com/file.pdf"></object>
</body></html>"#;

// ── Metadata ────────────────────────────────────────────────────────────────

fn meta(html: &str, url: &str) -> Vec<Finding> {
    MetadataAuditor.audit(&page(url), &Dom::parse(html))
}

#[test]
fn title_missing() {
    let f = meta("<html><head></head></html>", "https://example.com/");
    assert!(ids(&f).contains(&"title.missing"));
}

#[test]
fn title_empty() {
    let f = meta("<html><head><title>  </title></head></html>", "https://example.com/");
    assert!(ids(&f).contains(&"title.empty"));
}

#[test]
fn title_too_short() {
    let f = meta("<html><head><title>Hi</title></head></html>", "https://example.com/");
    assert!(ids(&f).contains(&"title.short"));
    let t = f.iter().find(|x| x.check_id == "title.short").unwrap();
    assert_eq!(t.message, "Title is 2 chars (min 30)");
}

#[test]
fn title_too_long() {
    let long = "A".repeat(61);
    let f = meta(&format!("<html><head><title>{long}</title></head></html>"), "https://example.com/");
    assert!(ids(&f).contains(&"title.long"));
}

#[test]
fn title_ok() {
    let f = meta("<html><head><title>This Title Is Exactly Right Length</title></head></html>", "https://example.com/");
    assert!(!ids(&f).iter().any(|id| id.starts_with("title.")));
}

#[test]
fn description_missing() {
    let f = meta("<html><head></head></html>", "https://example.com/");
    assert!(ids(&f).contains(&"description.missing"));
}

#[test]
fn description_short() {
    let f = meta(r#"<html><head><meta name="description" content="Short"></head></html>"#, "https://example.com/");
    assert!(ids(&f).contains(&"description.short"));
}

#[test]
fn description_long() {
    let long = "A".repeat(161);
    let f = meta(&format!(r#"<html><head><meta name="description" content="{long}"></head></html>"#), "https://example.com/");
    assert!(ids(&f).contains(&"description.long"));
}

#[test]
fn canonical_missing() {
    let f = meta("<html><head></head></html>", "https://example.com/");
    assert!(ids(&f).contains(&"canonical.missing"));
}

#[test]
fn canonical_off_host() {
    let f = meta(r#"<html><head><link rel="canonical" href="https://other.com/"></head></html>"#, "https://example.com/");
    assert!(ids(&f).contains(&"canonical.off-host"));
}

#[test]
fn canonical_ok() {
    let f = meta(r#"<html><head><link rel="canonical" href="https://example.com/"></head></html>"#, "https://example.com/");
    assert!(!ids(&f).iter().any(|id| id.starts_with("canonical.")));
}

#[test]
fn canonical_invalid() {
    let f = meta(r#"<html><head><link rel="canonical" href="/relative"></head></html>"#, "https://example.com/");
    let c = f.iter().find(|x| x.check_id == "canonical.invalid").expect("a relative canonical is not a URL");
    assert_eq!(c.message, "Canonical URL is not valid: /relative");
}

#[test]
fn metadata_findings_come_in_order() {
    let f = meta("<html><head></head></html>", "https://example.com/");
    assert_eq!(ids(&f), vec!["title.missing", "description.missing", "canonical.missing"]);
}

// ── Canonical ───────────────────────────────────────────────────────────────

fn canon(html: &str, p: &PageData) -> Vec<Finding> {
    CanonicalAuditor.audit(p, &Dom::parse(html))
}

#[test]
fn self_referential_no_findings() {
    let f = canon(CANONICAL_SELF, &page("https://example.com/"));
    assert!(f.is_empty(), "expected no findings, got: {:?}", ids(&f));
}

#[test]
fn no_canonical_no_findings() {
    let f = canon("<html><head></head><body></body></html>", &page("https://example.com/"));
    assert!(f.is_empty());
}

#[test]
fn multiple_canonicals_flagged() {
    let f = canon(CANONICAL_MULTIPLE, &page("https://example.com/page-a"));
    assert!(ids(&f).contains(&"canonical.multiple"), "expected canonical.multiple, got: {:?}", ids(&f));
    assert_eq!(f[0].message, "Page has 2 <link rel=\"canonical\"> elements; only one is expected");
}

#[test]
fn redirect_mismatch_flagged() {
    let p = page_with_chain("https://example.com/new", vec!["https://example.com/old"]);
    let f = canon(CANONICAL_REDIRECTED, &p);
    assert!(ids(&f).contains(&"canonical.redirect-mismatch"), "expected canonical.redirect-mismatch, got: {:?}", ids(&f));
}

#[test]
fn redirect_mismatch_no_not_self_referential() {
    let p = page_with_chain("https://example.com/new", vec!["https://example.com/old"]);
    let f = canon(CANONICAL_REDIRECTED, &p);
    assert!(!ids(&f).contains(&"canonical.not-self-referential"), "should not have not-self-referential when redirect-mismatch fires");
}

#[test]
fn not_self_referential_flagged() {
    let f = canon(CANONICAL_MULTIPLE, &page("https://example.com/page-c"));
    assert!(ids(&f).contains(&"canonical.not-self-referential"), "expected canonical.not-self-referential, got: {:?}", ids(&f));
}

#[test]
fn relative_canonical_resolved() {
    let f = canon(CANONICAL_RELATIVE, &page("https://example.com/"));
    assert!(ids(&f).contains(&"canonical.not-self-referential"), "relative canonical /landing should resolve and flag not-self-referential, got: {:?}", ids(&f));
    assert_eq!(
        f[0].message,
        "Canonical URL https://example.com/landing differs from the page URL https://example.com/ (same host, different path/query/fragment)"
    );
}

#[test]
fn off_host_canonical_no_findings() {
    let html = r#"<html><head><link rel="canonical" href="https://other.com/page"></head></html>"#;
    let f = canon(html, &page("https://example.com/page"));
    assert!(f.is_empty(), "off-host should produce no findings, got: {:?}", ids(&f));
}

// ── Headings ────────────────────────────────────────────────────────────────

fn heads(html: &str) -> Vec<Finding> {
    HeadingsAuditor.audit(&page("https://example.com/"), &Dom::parse(html))
}

#[test]
fn no_h1_is_critical() {
    let f = heads("<html><body><h2>Sub</h2></body></html>");
    assert!(ids(&f).contains(&"headings.no-h1"));
}

#[test]
fn multiple_h1_is_warning() {
    let f = heads("<html><body><h1>A</h1><h1>B</h1></body></html>");
    assert!(ids(&f).contains(&"headings.multiple-h1"));
    assert_eq!(f[0].message, "Page has 2 <h1> elements; expected exactly 1");
}

#[test]
fn single_h1_ok() {
    let f = heads("<html><body><h1>Main</h1><h2>Sub</h2></body></html>");
    assert!(!ids(&f).contains(&"headings.no-h1"));
    assert!(!ids(&f).contains(&"headings.multiple-h1"));
}

#[test]
fn empty_heading_flagged() {
    let f = heads("<html><body><h1></h1></body></html>");
    assert!(ids(&f).contains(&"headings.empty"));
    assert_eq!(f[0].message, "<h1> is empty");
}

#[test]
fn skipped_level_flagged() {
    let f = heads("<html><body><h1>A</h1><h3>C</h3></body></html>");
    assert!(ids(&f).contains(&"headings.skipped-level"));
    assert_eq!(f[0].message, "Heading level skipped: h1 → h3");
}

#[test]
fn no_skip_when_sequential() {
    let f = heads("<html><body><h1>A</h1><h2>B</h2><h3>C</h3></body></html>");
    assert!(!ids(&f).contains(&"headings.skipped-level"));
}

// ── HTTPS ───────────────────────────────────────────────────────────────────

fn https(html: &str, url: &str) -> Vec<Finding> {
    HttpsAuditor.audit(&page(url), &Dom::parse(html))
}

#[test]
fn http_page_is_critical() {
    let f = https("<html></html>", "http://example.com/");
    assert!(ids(&f).contains(&"https.insecure"));
    assert_eq!(f[0].message, "Page served over http; HTTPS required");
}

#[test]
fn https_page_clean() {
    let f = https(r#"<html><body><img src="https://cdn.example.com/img.jpg"></body></html>"#, "https://example.com/");
    assert!(f.is_empty());
}

#[test]
fn mixed_content_flagged() {
    let f = https(r#"<html><body><img src="http://cdn.example.com/img.jpg"></body></html>"#, "https://example.com/");
    assert!(ids(&f).contains(&"https.mixed-content"));
}

#[test]
fn no_mixed_content_on_http_page() {
    let f = https(r#"<html><body><img src="http://cdn.example.com/img.jpg"></body></html>"#, "http://example.com/");
    assert!(ids(&f).contains(&"https.insecure"));
    assert!(!ids(&f).contains(&"https.mixed-content"));
}

#[test]
fn mixed_content_fixture_flags_each_http_resource() {
    let findings = HttpsAuditor.audit(&page("https://example.com/"), &Dom::parse(MIXED_CONTENT));
    assert_eq!(findings.len(), 10, "expected 10 mixed-content findings, got {}", findings.len());
    for f in &findings {
        assert_eq!(f.check_id, "https.mixed-content", "unexpected check_id: {}", f.check_id);
        assert_eq!(f.category, Category::Security);
        assert_eq!(f.severity, Severity::Warning);
    }
}

#[test]
fn clean_fixture_emits_no_findings() {
    let findings = HttpsAuditor.audit(&page("https://example.com/"), &Dom::parse(CLEAN));
    assert!(findings.is_empty(), "expected no findings for clean https fixture, got: {findings:?}");
}

#[test]
fn http_page_flags_insecure_not_mixed() {
    let findings = HttpsAuditor.audit(&page("http://example.com/"), &Dom::parse(MIXED_CONTENT));
    assert_eq!(findings.len(), 1, "expected exactly 1 finding for http page, got {}", findings.len());
    assert_eq!(findings[0].check_id, "https.insecure");
    assert!(findings.iter().all(|f| f.check_id != "https.mixed-content"), "http page must not emit https.mixed-content");
}

// ── Images ──────────────────────────────────────────────────────────────────

fn images(html: &str) -> Vec<Finding> {
    ImagesAuditor.audit(&page("https://example.com/"), &Dom::parse(html))
}

#[test]
fn missing_alt_is_warning() {
    let f = images(IMAGES_MISSING_ALT);
    assert!(ids(&f).contains(&"images.missing-alt"));
    let finding = f.iter().find(|f| f.check_id == "images.missing-alt").unwrap();
    assert_eq!(finding.severity, Severity::Warning);
    assert_eq!(finding.penalty, 5);
    assert_eq!(finding.message, "Image is missing alt attribute: /photo.jpg");
}

#[test]
fn empty_alt_is_info() {
    let f = images(IMAGES_EMPTY_ALT);
    assert!(ids(&f).contains(&"images.empty-alt"));
    let finding = f.iter().find(|f| f.check_id == "images.empty-alt").unwrap();
    assert_eq!(finding.severity, Severity::Info);
    assert_eq!(finding.penalty, 2);
}

#[test]
fn descriptive_alt_produces_no_findings() {
    assert!(images(IMAGES_OK).is_empty());
}

#[test]
fn data_uri_without_alt_is_skipped() {
    assert!(images(IMAGES_DATA_URI).is_empty());
}

#[test]
fn svg_only_page_produces_no_findings() {
    assert!(images(IMAGES_SVG).is_empty());
}

#[test]
fn per_image_finding_one_per_offending_img() {
    let html = r#"<html><body>
        <img src="a.jpg">
        <img src="b.jpg">
        <img src="c.jpg" alt="ok">
    </body></html>"#;
    let f = images(html);
    let missing: Vec<_> = f.iter().filter(|f| f.check_id == "images.missing-alt").collect();
    assert_eq!(missing.len(), 2);
}

#[test]
fn mixed_missing_and_empty_alt() {
    let html = r#"<html><body>
        <img src="a.jpg">
        <img src="b.jpg" alt="">
        <img src="c.jpg" alt="Photo of a cat">
    </body></html>"#;
    let f = images(html);
    assert!(ids(&f).contains(&"images.missing-alt"));
    assert!(ids(&f).contains(&"images.empty-alt"));
    assert_eq!(f.len(), 2);
}

#[test]
fn category_is_media() {
    let f = images(IMAGES_MISSING_ALT);
    assert!(f.iter().all(|f| f.category == Category::Media));
}

// ── OpenGraph ───────────────────────────────────────────────────────────────

fn og(html: &str) -> Vec<Finding> {
    OpengraphAuditor.audit(&page("https://example.com/"), &Dom::parse(html))
}

#[test]
fn all_tags_present_zero_findings() {
    let f = og(OG_ALL);
    assert!(f.is_empty(), "expected no findings, got: {f:?}");
}

#[test]
fn no_tags_five_findings() {
    let f = og(OG_NONE);
    assert_eq!(f.len(), 5, "expected 5 findings, got: {f:?}");
    let id_list = ids(&f);
    assert!(id_list.contains(&"og.title.missing"));
    assert!(id_list.contains(&"og.description.missing"));
    assert!(id_list.contains(&"og.image.missing"));
    assert!(id_list.contains(&"og.url.missing"));
    assert!(id_list.contains(&"twitter.card.missing"));
    assert_eq!(f[0].message, "Missing or empty OpenGraph tag: og:title");
}

#[test]
fn only_og_image_missing_one_finding() {
    let f = og(OG_MISSING_IMAGE);
    assert_eq!(f.len(), 1, "expected 1 finding, got: {f:?}");
    assert_eq!(f[0].check_id, "og.image.missing");
}

#[test]
fn empty_content_treated_as_missing() {
    let f = og(OG_EMPTY_CONTENT);
    assert_eq!(f.len(), 5, "expected 5 findings for empty content, got: {f:?}");
}

#[test]
fn all_findings_have_social_tags_category() {
    for finding in &og(OG_NONE) {
        assert_eq!(finding.category, Category::SocialTags, "finding {} has wrong category", finding.check_id);
    }
}

#[test]
fn all_findings_have_info_severity_and_penalty_10() {
    for finding in &og(OG_NONE) {
        assert_eq!(finding.severity, Severity::Info, "finding {} has wrong severity", finding.check_id);
        assert_eq!(finding.penalty, 10, "finding {} has wrong penalty", finding.check_id);
    }
}

#[test]
fn auditor_id_and_category() {
    assert_eq!(OpengraphAuditor.id(), "opengraph");
    assert_eq!(OpengraphAuditor.category(), Category::SocialTags);
}

// ── Redirects ───────────────────────────────────────────────────────────────

fn redirects(len: usize) -> Vec<Finding> {
    let mut p = page("https://example.com/");
    p.redirect_chain = (0..len).map(|_| WebUrl::parse("https://example.com/").unwrap()).collect();
    RedirectsAuditor.audit(&p, &Dom::parse(""))
}

#[test]
fn chain_0_no_findings() {
    assert!(redirects(0).is_empty());
}

#[test]
fn chain_3_no_findings() {
    assert!(redirects(3).is_empty());
}

#[test]
fn chain_4_warning() {
    let f = redirects(4);
    assert_eq!(f.len(), 1);
    assert!(ids(&f).contains(&"redirects.chain-long"));
    assert_eq!(f[0].severity, Severity::Warning);
    assert!(f[0].penalty > 0);
    assert_eq!(f[0].category, Category::Links);
    assert_eq!(f[0].message, "Redirect chain is 4 hops (recommended max 3)");
}

#[test]
fn chain_5_warning() {
    let f = redirects(5);
    assert_eq!(f.len(), 1);
    assert!(ids(&f).contains(&"redirects.chain-long"));
    assert!(!ids(&f).contains(&"redirects.chain-excessive"));
}

#[test]
fn chain_6_critical_only() {
    let f = redirects(6);
    assert_eq!(f.len(), 1);
    assert!(ids(&f).contains(&"redirects.chain-excessive"));
    assert!(!ids(&f).contains(&"redirects.chain-long"));
    assert_eq!(f[0].severity, Severity::Critical);
    assert!(f[0].penalty > 0);
    assert_eq!(f[0].category, Category::Links);
}

#[test]
fn chain_10_critical_only() {
    let f = redirects(10);
    assert_eq!(f.len(), 1);
    assert!(ids(&f).contains(&"redirects.chain-excessive"));
    assert!(!ids(&f).contains(&"redirects.chain-long"));
}

// ── JS-rendered pages ───────────────────────────────────────────────────────

/// The check as the crawler runs it: the ratio of visible text to HTML is
/// compared with the default threshold of 5% in floating point.
fn js(html: &str) -> Vec<Finding> {
    let mut p = page("https://example.com/");
    p.html = html.to_owned();
    let dom = Dom::parse(html);
    let (html_len, visible, tags) = JsRenderedAuditor.measure(&p, &dom);
    let ratio_below = html_len > 0 && (visible as f64 / html_len as f64) < 0.05;
    JsRenderedAuditor.verdict(html_len, ratio_below, tags, DEFAULT_MIN_CONTENT_TAGS)
}

#[test]
fn empty_root_triggers_warning() {
    let f = js(EMPTY_ROOT);
    assert!(ids(&f).contains(&"js-rendered.likely"), "expected js-rendered.likely in {:?}", ids(&f));
    let finding = f.iter().find(|x| x.check_id == "js-rendered.likely").unwrap();
    assert_eq!(finding.severity, Severity::Warning);
    assert_eq!(finding.message, "page appears to require JS rendering — results may be incomplete");
}

#[test]
fn content_rich_page_does_not_trigger() {
    let f = js(BASIC);
    assert!(!ids(&f).contains(&"js-rendered.likely"), "did not expect js-rendered.likely for basic.html");
}

#[test]
fn zero_byte_html_returns_empty_no_panic() {
    assert!(js("").is_empty(), "expected no findings for empty HTML");
}

#[test]
fn visible_text_excludes_scripts_and_counts_bytes() {
    let html = "<html><head><script>var x = 1;</script><style>p{}</style></head><body><p>  héllo  </p><noscript>enable js</noscript></body></html>";
    let mut p = page("https://example.com/");
    p.html = html.to_owned();
    let (html_len, visible, tags) = JsRenderedAuditor.measure(&p, &Dom::parse(html));
    assert_eq!(html_len, html.len());
    assert_eq!(visible, "héllo".len());
    assert_eq!(tags, 1);
}

// ── All page checks ─────────────────────────────────────────────────────────

#[test]
fn basic_page_passes_every_page_check() {
    let f = audit_page(&page("https://example.com/"), &Dom::parse(BASIC));
    assert!(f.is_empty(), "got: {:?}", ids(&f));
}

#[test]
fn page_checks_run_in_order() {
    let f = audit_page(&page("http://example.com/"), &Dom::parse("<html></html>"));
    assert_eq!(
        ids(&f),
        vec![
            "title.missing",
            "description.missing",
            "canonical.missing",
            "headings.no-h1",
            "https.insecure",
            "og.title.missing",
            "og.description.missing",
            "og.image.missing",
            "og.url.missing",
            "twitter.card.missing",
        ]
    );
}

#[test]
fn description_severities_follow_the_check_table() {
    let f = meta("<html><head></head></html>", "https://example.com/");
    let missing = f.iter().find(|x| x.check_id == "description.missing").expect("description.missing");
    assert_eq!(missing.severity, Severity::Critical);
    let long = "A".repeat(161);
    let f = meta(&format!(r#"<html><head><meta name="description" content="{long}"></head></html>"#), "https://example.com/");
    let l = f.iter().find(|x| x.check_id == "description.long").expect("description.long");
    assert_eq!(l.severity, Severity::Warning);
}
