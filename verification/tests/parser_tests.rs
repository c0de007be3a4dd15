use sandslash::parser::links::normalize;
use sandslash::parser::{discover_links, is_same_site, Dom};
use sandslash::weburl::WebUrl;

const FIXTURE: &str = r#"<!DOCTYPE html>
<html>
<head>
  <title>  Basic Page Title That Is Long Enough  </title>
  <meta name="description" content=" A basic page description. ">
  <link rel="canonical" href="https://example.com/">
  <meta property="og:title" content="Basic Page">
</head>
<body>
  <h2>Second first</h2>
  <h1>Basic Page</h1>
  <p>Some text.</p>
  <img src="/photo.jpg" alt="A photo">
  <a href="/about">About</a>
  <a href="https://example.com/contact">Contact</a>
</body>
</html>"#;

fn base(s: &str) -> WebUrl {
    WebUrl::parse(s).expect("invariant: test base URL must be valid")
}

// ── Dom ─────────────────────────────────────────────────────────────────────

#[test]
fn title_extracted() {
    let dom = Dom::parse(FIXTURE);
    assert_eq!(dom.title().unwrap(), "Basic Page Title That Is Long Enough");
}

#[test]
fn meta_description_extracted() {
    let dom = Dom::parse(FIXTURE);
    assert!(dom.meta_description().is_some());
    assert_eq!(dom.meta_description().unwrap(), "A basic page description.");
}

#[test]
fn canonical_extracted() {
    let dom = Dom::parse(FIXTURE);
    assert_eq!(dom.canonical().unwrap(), "https://example.com/");
    assert_eq!(dom.canonicals(), vec!["https://example.com/".to_owned()]);
}

#[test]
fn headings_extracted() {
    let dom = Dom::parse(FIXTURE);
    let h = dom.headings();
    assert!(h.iter().any(|(l, _)| *l == 1));
    assert!(h.iter().any(|(l, _)| *l == 2));
}

#[test]
fn headings_are_listed_by_level() {
    let dom = Dom::parse(FIXTURE);
    assert_eq!(
        dom.headings(),
        vec![(1u8, "Basic Page".to_owned()), (2u8, "Second first".to_owned())]
    );
}

#[test]
fn images_extracted() {
    let dom = Dom::parse(FIXTURE);
    let imgs = dom.images();
    assert_eq!(imgs.len(), 1);
    assert_eq!(imgs[0].alt.as_deref(), Some("A photo"));
    assert_eq!(imgs[0].src, "/photo.jpg");
}

#[test]
fn image_without_src_has_empty_src() {
    let dom = Dom::parse("<html><body><img alt=\"x\"></body></html>");
    let imgs = dom.images();
    assert_eq!(imgs[0].src, "");
    assert_eq!(imgs[0].alt.as_deref(), Some("x"));
}

#[test]
fn links_extracted() {
    let dom = Dom::parse(FIXTURE);
    let links = dom.links();
    assert!(links.contains(&"/about".to_owned()));
}

#[test]
fn meta_property_extracted() {
    let dom = Dom::parse(FIXTURE);
    assert_eq!(dom.meta_property("og:title").unwrap(), "Basic Page");
}

#[test]
fn meta_name_extracted() {
    let dom = Dom::parse(r#"<html><head><meta name="twitter:card" content=" summary "></head></html>"#);
    assert_eq!(dom.meta_name("twitter:card").unwrap(), "summary");
    assert_eq!(dom.meta_name("missing"), None);
}

#[test]
fn meta_key_that_breaks_the_selector_gives_none() {
    let dom = Dom::parse(FIXTURE);
    assert_eq!(dom.meta_property("og:title'] ["), None);
}

#[test]
fn missing_title_returns_none() {
    let dom = Dom::parse("<html><head></head><body></body></html>");
    assert!(dom.title().is_none());
}

fn resource_test(html: &str, url: &str) {
    let dom = Dom::parse(html);
    assert!(dom.resource_urls().contains(&url.to_owned()));
}

#[test]
fn resource_urls_includes_iframe_src() {
    resource_test(r#"<html><body><iframe src="http://iframe.example.com/frame"></iframe></body></html>"#, "http://iframe.example.com/frame");
}

#[test]
fn resource_urls_includes_audio_src() {
    resource_test(r#"<html><body><audio src="http://audio.example.com/track.mp3"></audio></body></html>"#, "http://audio.example.com/track.mp3");
}

#[test]
fn resource_urls_includes_video_src() {
    resource_test(r#"<html><body><video src="http://video.example.com/clip.mp4"></video></body></html>"#, "http://video.example.com/clip.mp4");
}

#[test]
fn resource_urls_includes_source_src() {
    resource_test(r#"<html><body><video><source src="http://source.example.com/clip.mp4"></video></body></html>"#, "http://source.example.com/clip.mp4");
}

#[test]
fn resource_urls_includes_track_src() {
    resource_test(r#"<html><body><video><track src="http://track.example.com/subs.vtt"></video></body></html>"#, "http://track.example.com/subs.vtt");
}

#[test]
fn resource_urls_includes_embed_src() {
    resource_test(r#"<html><body><embed src="http://embed.example.com/plugin.swf"></body></html>"#, "http://embed.example.com/plugin.swf");
}

#[test]
fn resource_urls_includes_object_data() {
    resource_test(r#"<html><body><object data="http://object.example.com/file.pdf"></object></body></html>"#, "http://object.example.com/file.pdf");
}

#[test]
fn resource_urls_order_puts_links_last() {
    let dom = Dom::parse(r#"<html><head><link rel="stylesheet" href="/a.css"></head><body><object data="/o"></object><img src="/i.png"></body></html>"#);
    assert_eq!(dom.resource_urls(), vec!["/i.png".to_owned(), "/o".to_owned(), "/a.css".to_owned()]);
}

#[test]
fn content_tags_counted() {
    let dom = Dom::parse("<html><body><main><article><h1>A</h1><p>x</p><ul><li>1</li><li>2</li></ul></article></main><div>no</div></body></html>");
    assert_eq!(dom.content_tag_count(), 6);
}

#[test]
fn json_ld_blocks_extracted() {
    let dom = Dom::parse(r#"<html><head><script type="application/ld+json">{"@type":"Thing"}</script><script>x()</script></head></html>"#);
    assert_eq!(dom.json_ld_blocks(), vec![r#"{"@type":"Thing"}"#.to_owned()]);
}

// ── is_same_site ────────────────────────────────────────────────────────────

#[test]
fn is_same_site_identical_host_true() {
    assert!(is_same_site(&base("https://example.com/page"), &base("https://example.com/other")));
}

#[test]
fn is_same_site_www_vs_apex_false() {
    assert!(!is_same_site(&base("https://www.foo.com/"), &base("https://foo.com/")));
}

#[test]
fn is_same_site_different_hosts_false() {
    assert!(!is_same_site(&base("https://example.com/"), &base("https://other.com/")));
}

#[test]
fn is_same_site_http_vs_https_same_host_true() {
    assert!(is_same_site(&base("http://example.com/page"), &base("https://example.com/page")));
}

#[test]
fn is_same_site_no_host_false() {
    let a = WebUrl::parse("file:///tmp/index.html").expect("invariant: file URL must parse");
    let b = base("https://example.com/");
    assert!(!is_same_site(&a, &b));
    assert!(!is_same_site(&b, &a));
}

// ── normalize ───────────────────────────────────────────────────────────────

#[test]
fn normalize_strips_fragment_tracking_and_sorts_query() {
    let b = base("https://example.com/");
    let u = normalize(&b, " /shop/?z=1&utm_source=x&a=2&fbclid=y#top ").unwrap();
    assert_eq!(u.as_str(), "https://example.com/shop?a=2&z=1");
}

#[test]
fn normalize_keeps_order_of_equal_keys() {
    let b = base("https://example.com/");
    let u = normalize(&b, "/p?b=2&a=3&b=1").unwrap();
    assert_eq!(u.as_str(), "https://example.com/p?a=3&b=2&b=1");
}

#[test]
fn normalize_drops_query_made_only_of_tracking() {
    let b = base("https://example.com/");
    assert_eq!(normalize(&b, "/a?utm_source=x&ref=y").unwrap().as_str(), "https://example.com/a");
}

#[test]
fn normalize_rejects_fragments_and_other_schemes() {
    let b = base("https://example.com/");
    assert!(normalize(&b, "#section").is_none());
    assert!(normalize(&b, "  #x").is_none());
    assert!(normalize(&b, "mailto:user@example.com").is_none());
    assert!(normalize(&b, "javascript:void(0)").is_none());
    assert!(normalize(&b, "http://[::1").is_none());
}

#[test]
fn normalize_keeps_root_path() {
    let b = base("https://example.com/");
    assert_eq!(normalize(&b, "https://EXAMPLE.com/").unwrap().as_str(), "https://example.com/");
}

// ── discover_links ──────────────────────────────────────────────────────────

fn page_with_links(links_html: &str) -> String {
    format!(r#"<!DOCTYPE html><html><head><title>T</title></head><body>{links_html}</body></html>"#)
}

#[test]
fn discover_keeps_same_host_drops_external_and_invalid_schemes() {
    let html = page_with_links(
        r##"<a href="/about">About</a><a href="https://external.com/page">Ext</a><a href="mailto:user@example.com">Mail</a><a href="javascript:void(0)">JS</a><a href="#anchor">Anchor</a>"##,
    );
    let b = base("https://example.com/");
    let links = discover_links(&b, &Dom::parse(&html));
    assert!(links.iter().any(|u| u.path() == "/about"), "expected /about in {links:?}");
    assert!(links.iter().all(|u| u.host_str() == Some("example.com".to_owned())), "external host leaked into {links:?}");
    assert_eq!(links.len(), 1, "unexpected link count: {links:?}");
}

#[test]
fn discover_deduplicates_links() {
    let html = page_with_links(r#"<a href="/a">First</a><a href="/a">Duplicate</a><a href="/a?utm_source=x">UTM</a>"#);
    let b = base("https://example.com/");
    let links = discover_links(&b, &Dom::parse(&html));
    assert_eq!(links.len(), 1, "expected 1 deduplicated link, got {links:?}");
    assert_eq!(links[0].path(), "/a");
}

#[test]
fn discover_resolves_relative_href() {
    let html = page_with_links(r#"<a href="about">About relative</a>"#);
    let b = base("https://example.com/dir/");
    let links = discover_links(&b, &Dom::parse(&html));
    assert_eq!(links.len(), 1, "expected 1 link, got {links:?}");
    assert_eq!(links[0].as_str(), "https://example.com/dir/about", "relative href not resolved correctly");
}

#[test]
fn discover_keeps_self_link() {
    let html = page_with_links(r#"<a href="https://example.com/">Home</a>"#);
    let b = base("https://example.com/");
    let links = discover_links(&b, &Dom::parse(&html));
    assert_eq!(links.len(), 1, "self-link should be kept: {links:?}");
    assert_eq!(links[0].host_str(), Some("example.com".to_owned()));
}

#[test]
fn discover_keeps_first_occurrence_order() {
    let html = page_with_links(r#"<a href="/b">B</a><a href="/a">A</a><a href="/b/">B again</a>"#);
    let b = base("https://example.com/");
    let links: Vec<String> = discover_links(&b, &Dom::parse(&html)).iter().map(|u| u.as_str().to_owned()).collect();
    assert_eq!(links, vec!["https://example.com/b".to_owned(), "https://example.com/a".to_owned()]);
}

#[test]
fn trimming_agrees_with_std_white_space() {
    for n in (0u32..=0x3100).chain([0xfeff, 0x10ffff]) {
        if let Some(c) = char::from_u32(n) {
            let s = format!("{c}a{c}");
            assert_eq!(sandslash::text::trim(&s), s.trim(), "U+{n:04X}");
        }
    }
}
