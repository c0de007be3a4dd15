use sandslash::audit::links::{
    classify, extract_hrefs, head_status, partition, to_probe, BrokenLinksAuditor, ProbeOutcome,
};
use sandslash::audit::sitemap::{fallback_sitemap_url, resolve_sitemap_url, validate_sitemap_xml, SitemapAuditor};
use sandslash::model::Severity;
use sandslash::weburl::WebUrl;

const ROOT: &str = "https://example.com/";

fn root_url() -> WebUrl {
    WebUrl::parse(ROOT).unwrap()
}

fn base() -> WebUrl {
    root_url()
}

// ── resolve_sitemap_url ─────────────────────────────────────────────────────

#[test]
fn finds_absolute_sitemap_url() {
    let body = "User-agent: *\nSitemap: https://example.com/sitemap.xml\n";
    let result = resolve_sitemap_url(body, &root_url());
    assert_eq!(result.as_ref().map(|u| u.as_str()), Some("https://example.com/sitemap.xml"));
}

#[test]
fn finds_sitemap_url_case_insensitive() {
    let result = resolve_sitemap_url("SITEMAP: https://example.com/sitemap.xml\n", &root_url());
    assert!(result.is_some(), "should find sitemap even with uppercase directive");
}

#[test]
fn no_sitemap_directive_returns_none() {
    assert!(resolve_sitemap_url("User-agent: *\nDisallow: /private\n", &root_url()).is_none());
}

#[test]
fn empty_sitemap_value_returns_none() {
    assert!(resolve_sitemap_url("Sitemap:\n", &root_url()).is_none());
}

#[test]
fn sitemap_with_inline_comment_is_trimmed() {
    let body = "User-agent: *\n# a comment\nSitemap: https://example.com/sitemap.xml\n";
    assert!(resolve_sitemap_url(body, &root_url()).is_some());
}

#[test]
fn returns_first_sitemap_when_multiple_present() {
    let body = "Sitemap: https://example.com/sitemap1.xml\nSitemap: https://example.com/sitemap2.xml\n";
    let result = resolve_sitemap_url(body, &root_url()).unwrap();
    assert_eq!(result.as_str(), "https://example.com/sitemap1.xml");
}

#[test]
fn relative_sitemap_resolved_against_root() {
    let result = resolve_sitemap_url("Sitemap: /maps/site.xml # main\n", &root_url()).unwrap();
    assert_eq!(result.as_str(), "https://example.com/maps/site.xml");
}

#[test]
fn fallback_is_root_sitemap() {
    let page = WebUrl::parse("https://example.com/deep/page").unwrap();
    assert_eq!(fallback_sitemap_url(&page).as_str(), "https://example.com/sitemap.xml");
}

// ── validate_sitemap_xml ────────────────────────────────────────────────────

#[test]
fn valid_sitemap_xml_returns_ok() {
    let xml = br#"<?xml version="1.0" encoding="UTF-8"?>
<urlset xmlns="http://www.sitemaps.org/schemas/sitemap/0.9">
  <url><loc>https://example.com/</loc></url>
</urlset>"#;
    assert!(validate_sitemap_xml(xml).is_ok());
}

#[test]
fn truncated_xml_returns_err() {
    let xml = b"<?xml version=\"1.0\"?><urlset><url><loc>https://example.com/</loc>";
    assert!(validate_sitemap_xml(xml).is_err(), "truncated XML should fail validation");
}

#[test]
fn mismatched_tags_returns_err() {
    let xml = b"<?xml version=\"1.0\"?><urlset><url></wrong></urlset>";
    assert!(validate_sitemap_xml(xml).is_err(), "mismatched tags should fail validation");
}

#[test]
fn empty_bytes_returns_ok() {
    assert!(validate_sitemap_xml(b"").is_ok());
}

// ── Sitemap auditor decisions ───────────────────────────────────────────────

const VALID_SITEMAP: &str = r#"<?xml version="1.0" encoding="UTF-8"?>
<urlset xmlns="http://www.sitemaps.org/schemas/sitemap/0.9">
  <url><loc>https://example.com/</loc></url>
</urlset>"#;

const TRUNCATED_SITEMAP: &str = r#"<?xml version="1.0" encoding="UTF-8"?><urlset><url><loc>https://example.com/</loc>"#;

#[test]
fn valid_sitemap_emits_no_findings() {
    assert!(SitemapAuditor.findings(Some((200, VALID_SITEMAP))).is_empty());
}

#[test]
fn truncated_sitemap_emits_malformed_critical() {
    let f = SitemapAuditor.findings(Some((200, TRUNCATED_SITEMAP)));
    assert_eq!(f.len(), 1);
    assert_eq!(f[0].check_id, "sitemap.malformed");
    assert_eq!(f[0].severity, Severity::Critical);
    assert_eq!(f[0].penalty, 20);
}

#[test]
fn missing_sitemap_emits_warning() {
    for fetched in [Some((404u16, "")), None] {
        let f = SitemapAuditor.findings(fetched);
        assert_eq!(f.len(), 1);
        assert_eq!(f[0].check_id, "sitemap.missing");
        assert_eq!(f[0].severity, Severity::Warning);
        assert_eq!(f[0].penalty, 5);
    }
}

#[test]
fn sitemap_location_follows_robots() {
    let page = root_url();
    let named = SitemapAuditor.sitemap_location(&page, Some((200, "Sitemap: https://example.com/custom.xml\n")));
    assert_eq!(named.as_str(), "https://example.com/custom.xml");
    let not_named = SitemapAuditor.sitemap_location(&page, Some((200, "User-agent: *\n")));
    assert_eq!(not_named.as_str(), "https://example.com/sitemap.xml");
    let failed = SitemapAuditor.sitemap_location(&page, Some((500, "Sitemap: https://example.com/custom.xml\n")));
    assert_eq!(failed.as_str(), "https://example.com/sitemap.xml");
    assert_eq!(SitemapAuditor.sitemap_location(&page, None).as_str(), "https://example.com/sitemap.xml");
}

// ── Broken links ────────────────────────────────────────────────────────────

fn strings(v: &[&str]) -> Vec<String> {
    v.iter().map(|s| s.to_string()).collect()
}

#[test]
fn partition_splits_internal_external_drops_non_http() {
    let hrefs = strings(&["/about", "https://example.com/contact", "https://other.com/page", "mailto:foo@example.com", "#section"]);
    let (internal, external) = partition(&hrefs, &base());
    assert_eq!(internal.len(), 2, "expected 2 internal: {internal:?}");
    assert_eq!(external.len(), 1, "expected 1 external: {external:?}");
    assert!(external.iter().all(|u| u.host_str() == Some("other.com".to_owned())), "external should only contain other.com: {external:?}");
}

#[test]
fn partition_deduplicates() {
    let hrefs = strings(&["/page", "/page", "/page?utm_source=x"]);
    let (internal, _) = partition(&hrefs, &base());
    assert_eq!(internal.len(), 1, "expected 1 deduplicated URL: {internal:?}");
}

#[test]
fn partition_drops_mailto() {
    let hrefs = strings(&["mailto:foo@bar.com"]);
    let (internal, external) = partition(&hrefs, &base());
    assert!(internal.is_empty(), "mailto must not appear in internal");
    assert!(external.is_empty(), "mailto must not appear in external");
}

#[test]
fn partition_from_fixture_html() {
    let html = r##"<html><body>
  <a href="/ok">OK</a>
  <a href="/ok">OK again</a>
  <a href="http://example.com/missing">Missing</a>
  <a href="/broken">Broken</a>
  <a href="/head-hostile">HEAD hostile</a>
  <a href="http://external.example.org/page">External</a>
  <a href="#section">Section</a>
  <a href="mailto:foo@bar.com">Mail</a>
</body></html>"##;
    let hrefs = extract_hrefs(html);
    let (internal, external) = partition(&hrefs, &base());
    assert_eq!(internal.len(), 4, "expected 4 deduplicated internal URLs from fixture: {internal:?}");
    assert_eq!(external.len(), 1, "expected 1 external URL from fixture: {external:?}");
    assert!(external.iter().all(|u| u.host_str() == Some("external.example.org".to_owned())), "external should only contain external.example.org: {external:?}");
}

#[test]
fn partition_external_not_in_internal_set_when_check_disabled() {
    let hrefs = strings(&["/internal-page", "https://other.com/external-404"]);
    let (internal, external) = partition(&hrefs, &base());
    assert_eq!(internal.len(), 1, "expected 1 internal URL: {internal:?}");
    assert_eq!(external.len(), 1, "expected 1 external URL: {external:?}");
    assert!(internal.iter().all(|u| u.host_str() == Some("example.com".to_owned())), "internal set must not contain cross-host URLs: {internal:?}");
    let probed = to_probe(internal, external, false);
    assert_eq!(probed.len(), 1);
    assert_eq!(probed[0].as_str(), "https://example.com/internal-page");
}

#[test]
fn external_links_probed_when_asked() {
    let hrefs = strings(&["/a", "https://other.com/b"]);
    let (internal, external) = partition(&hrefs, &base());
    let probed: Vec<String> = to_probe(internal, external, true).iter().map(|u| u.as_str().to_owned()).collect();
    assert_eq!(probed, strings(&["https://example.com/a", "https://other.com/b"]));
}

#[test]
fn head_405_or_failure_falls_back_to_get() {
    assert_eq!(head_status(Some(405)), None);
    assert_eq!(head_status(None), None);
    assert_eq!(head_status(Some(404)), Some(404));
    assert_eq!(head_status(Some(200)), Some(200));
}

#[test]
fn statuses_classified() {
    assert_eq!(classify(Some(200)), ProbeOutcome::Reachable);
    assert_eq!(classify(Some(301)), ProbeOutcome::Reachable);
    assert_eq!(classify(Some(404)), ProbeOutcome::Status4xx(404));
    assert_eq!(classify(Some(503)), ProbeOutcome::Status5xx(503));
    assert_eq!(classify(Some(101)), ProbeOutcome::Unreachable);
    assert_eq!(classify(None), ProbeOutcome::Unreachable);
}

#[test]
fn broken_link_findings() {
    let u = |s: &str| WebUrl::parse(s).unwrap();
    let results = vec![
        (u("https://example.com/ok"), ProbeOutcome::Reachable),
        (u("https://example.com/missing"), ProbeOutcome::Status4xx(404)),
        (u("https://example.com/err"), ProbeOutcome::Status5xx(500)),
        (u("https://example.com/down"), ProbeOutcome::Unreachable),
    ];
    let f = BrokenLinksAuditor.findings(&results);
    let ids: Vec<&str> = f.iter().map(|x| x.check_id.as_str()).collect();
    assert_eq!(ids, vec!["links.broken-4xx", "links.broken-5xx", "links.unreachable"]);
    assert_eq!(f[0].message, "Broken link (HTTP 404): https://example.com/missing");
    assert_eq!(f[0].severity, Severity::Warning);
    assert_eq!(f[1].message, "Server error link (HTTP 500): https://example.com/err");
    assert_eq!(f[1].severity, Severity::Critical);
    assert_eq!(f[1].penalty, 20);
    assert_eq!(f[2].message, "Unreachable link: https://example.com/down");
}
