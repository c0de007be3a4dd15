use sandslash::audit::structured_data::StructuredDataAuditor;
use sandslash::audit::PageAuditor;
use sandslash::model::{Finding, PageData};
use sandslash::weburl::WebUrl;
use sandslash::parser::Dom;

/// The check as a page is audited: each JSON-LD block is parsed as JSON.
fn audit(html: &str) -> Vec<Finding> {
    let dom = Dom::parse(html);
    let page = PageData {
        url: WebUrl::parse("https://example.com/").expect("invariant: valid url"),
        status: 200,
        redirect_chain: vec![],
        html: html.to_owned(),
        headers: Default::default(),
        depth: 0,
    };
    StructuredDataAuditor.audit(&page, &dom)
}

fn ids(findings: &[Finding]) -> Vec<&str> {
    findings.iter().map(|f| f.check_id.as_str()).collect()
}

fn page(json: &str) -> String {
    format!(r#"<!DOCTYPE html><html><head><script type="application/ld+json">{json}</script></head><body></body></html>"#)
}

#[test]
fn valid_article_zero_findings() {
    let html = page(r#"{"@context":"https://schema.org","@type":"Article","headline":"H","author":{"@type":"Person","name":"A"},"datePublished":"2024-01-15"}"#);
    let f = audit(&html);
    assert!(f.is_empty(), "expected zero findings, got: {:?}", ids(&f));
}

#[test]
fn malformed_json_emits_malformed() {
    let f = audit(&page(r#"{"@type": "Article", "headline": }"#));
    assert!(ids(&f).contains(&"jsonld.malformed"), "expected jsonld.malformed, got: {:?}", ids(&f));
    assert_eq!(f.len(), 1, "expected exactly one finding");
}

#[test]
fn missing_type_emits_missing_type() {
    let f = audit(&page(r#"{"@context":"https://schema.org","name":"No type here"}"#));
    assert!(ids(&f).contains(&"jsonld.missing-type"), "expected jsonld.missing-type, got: {:?}", ids(&f));
    assert_eq!(f.len(), 1, "expected exactly one finding");
}

#[test]
fn unknown_type_emits_unknown_type() {
    let f = audit(&page(r#"{"@context":"https://schema.org","@type":"SpaceStation","name":"ISS"}"#));
    assert!(ids(&f).contains(&"jsonld.unknown-type"), "expected jsonld.unknown-type, got: {:?}", ids(&f));
    assert_eq!(f.len(), 1, "expected exactly one finding");
    assert_eq!(f[0].message, "unknown schema.org type: SpaceStation");
    assert_eq!(f[0].penalty, 0);
}

#[test]
fn missing_required_field_emits_missing_required() {
    let f = audit(&page(r#"{"@context":"https://schema.org","@type":"Product"}"#));
    assert!(ids(&f).contains(&"jsonld.missing-required"), "expected jsonld.missing-required, got: {:?}", ids(&f));
    assert_eq!(f.len(), 1, "expected exactly one finding");
    assert_eq!(f[0].message, "Product missing required field: name");
}

#[test]
fn graph_valid_article_and_product_missing_name() {
    let html = page(r#"{"@context":"https://schema.org","@graph":[
        {"@type":"Article","headline":"H","author":"A","datePublished":"2024-01-15"},
        {"@type":"Product","description":"no name"}]}"#);
    let f = audit(&html);
    assert!(ids(&f).contains(&"jsonld.missing-required"), "expected jsonld.missing-required, got: {:?}", ids(&f));
    assert_eq!(f.len(), 1, "expected exactly one finding");
}

#[test]
fn no_jsonld_zero_findings() {
    let f = audit("<!DOCTYPE html><html><head><title>Plain</title></head><body><p>x</p></body></html>");
    assert!(f.is_empty(), "expected zero findings for page with no JSON-LD, got: {:?}", ids(&f));
}

#[test]
fn type_as_array_validates_each_type() {
    let html = r#"<!DOCTYPE html>
<html><head>
<script type="application/ld+json">
{
  "@context": "https://schema.org",
  "@type": ["Article", "NewsArticle"],
  "headline": "Multi-type Article",
  "author": {"@type": "Person", "name": "Alice"},
  "datePublished": "2024-01-15"
}
</script>
</head><body></body></html>"#;
    let f = audit(html);
    assert!(f.is_empty(), "expected zero findings for valid multi-type node, got: {:?}", ids(&f));
}

#[test]
fn type_as_array_emits_findings_for_missing_fields_per_type() {
    let html = r#"<!DOCTYPE html>
<html><head>
<script type="application/ld+json">
{
  "@context": "https://schema.org",
  "@type": ["BlogPosting", "Organization"]
}
</script>
</head><body></body></html>"#;
    let f = audit(html);
    let check_ids = ids(&f);
    assert_eq!(
        check_ids.iter().filter(|&&id| id == "jsonld.missing-required").count(),
        4,
        "expected 4 missing-required findings, got: {check_ids:?}",
    );
}

#[test]
fn type_of_another_kind_counts_as_missing() {
    let f = audit(&page(r#"{"@type": 7}"#));
    assert_eq!(ids(&f), vec!["jsonld.missing-type"]);
}
