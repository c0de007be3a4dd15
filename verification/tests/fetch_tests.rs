use sandslash::error::SeoError;
use sandslash::fetcher::client::{
    charset_from_content_type, charset_from_meta_sniff, decode_body, FetchPlan, FetchStep, HeaderText,
    MAX_REDIRECTS,
};
use sandslash::fetcher::rate_limiter::{crawl_delay_wait, raised_min_interval};
use sandslash::model::Headers;
use sandslash::weburl::WebUrl;

// ── Charsets ────────────────────────────────────────────────────────────────

#[test]
fn charset_from_content_type_extracts_label() {
    assert_eq!(charset_from_content_type("text/html; charset=windows-1252"), Some("windows-1252".to_owned()));
    assert_eq!(charset_from_content_type("text/html; charset=UTF-8"), Some("utf-8".to_owned()));
    assert_eq!(charset_from_content_type("text/html"), None);
}

#[test]
fn charset_from_content_type_handles_quotes_and_stops() {
    assert_eq!(charset_from_content_type("text/html; charset= \"ISO-8859-1\"; x=y"), Some("iso-8859-1".to_owned()));
    assert_eq!(charset_from_content_type("text/html; charset="), None);
}

#[test]
fn charset_from_meta_sniff_finds_charset() {
    let html = b"<html><head><meta charset=\"Shift_JIS\"></head></html>";
    assert_eq!(charset_from_meta_sniff(html), Some("shift_jis".to_owned()));

    let html2 = b"<html><head><meta charset='windows-1252'></head></html>";
    assert_eq!(charset_from_meta_sniff(html2), Some("windows-1252".to_owned()));

    let html3 = b"<html><head></head><body>no charset here</body></html>";
    assert_eq!(charset_from_meta_sniff(html3), None);
}

#[test]
fn charset_sniff_reads_only_the_first_1024_bytes() {
    let mut body = vec![b' '; 1024];
    body.extend_from_slice(b"<meta charset=\"utf-8\">");
    assert_eq!(charset_from_meta_sniff(&body), None);
}

#[test]
fn decodes_shift_jis_via_meta_sniff() {
    let html_str = "<html><head><meta charset=\"Shift_JIS\"></head><body>こんにちは</body></html>";
    let (encoded, _, _) = encoding_rs::SHIFT_JIS.encode(html_str);
    let html = decode_body(&encoded, Some("text/html"));
    assert!(html.contains("こんにちは"), "got: {html:?}");
}

#[test]
fn decodes_windows_1252_via_content_type() {
    let (encoded, _, _) = encoding_rs::WINDOWS_1252.encode("<html><body>café</body></html>");
    let html = decode_body(&encoded, Some("text/html; charset=windows-1252"));
    assert!(html.contains("café"), "got: {html:?}");
}

#[test]
fn decodes_utf8_no_charset() {
    let html = decode_body(b"<html><body>hello world</body></html>", Some("text/html"));
    assert!(html.contains("hello world"));
}

#[test]
fn unknown_charset_falls_back_to_utf8() {
    let html = decode_body("<html><body>safe ✓</body></html>".as_bytes(), Some("text/html; charset=bogus-encoding"));
    assert!(html.contains("safe ✓"));
}

// ── Following redirects ─────────────────────────────────────────────────────

fn u(s: &str) -> WebUrl {
    WebUrl::parse(s).unwrap()
}

fn loc(s: &str) -> HeaderText {
    HeaderText::Text(s.to_owned())
}

#[test]
fn fetch_follows_redirect_chain() {
    let mut plan = FetchPlan::new(u("http://127.0.0.1:8080/hop1"));
    for next in ["/hop2", "/hop3", "/final"] {
        assert_eq!(plan.begin_hop().unwrap(), "127.0.0.1");
        assert_eq!(plan.on_response(301, loc(next), HeaderText::Absent).unwrap(), FetchStep::Redirected);
    }
    plan.begin_hop().unwrap();
    assert_eq!(plan.on_response(200, HeaderText::Absent, HeaderText::Absent).unwrap(), FetchStep::Done { status: 200 });
    let page = plan.finish(200, "<html>done</html>".to_owned(), Headers::default());
    assert_eq!(page.status, 200);
    assert_eq!(page.redirect_chain.len(), 3, "expected 3 intermediate hops");
    assert!(page.url.path().ends_with("/final"));
    assert!(page.redirect_chain[0].path().ends_with("/hop1"));
    assert!(page.redirect_chain[1].path().ends_with("/hop2"));
    assert!(page.redirect_chain[2].path().ends_with("/hop3"));
    assert_eq!(page.depth, 0);
}

#[test]
fn fetch_detects_redirect_loop() {
    let mut plan = FetchPlan::new(u("http://127.0.0.1:8080/loop"));
    plan.begin_hop().unwrap();
    assert_eq!(plan.on_response(301, loc("/loop"), HeaderText::Absent).unwrap(), FetchStep::Redirected);
    let err = plan.begin_hop().unwrap_err();
    assert!(matches!(err, SeoError::RedirectLoop { ref url, hops: 1 } if url == "http://127.0.0.1:8080/loop"), "got {err:?}");
}

#[test]
fn fetch_stops_after_ten_redirects() {
    let mut plan = FetchPlan::new(u("https://example.com/0"));
    for i in 1..=MAX_REDIRECTS {
        plan.begin_hop().unwrap();
        assert_eq!(plan.on_response(302, loc(&format!("/{i}")), HeaderText::Absent).unwrap(), FetchStep::Redirected);
    }
    let err = plan.begin_hop().unwrap_err();
    assert!(matches!(err, SeoError::RedirectLoop { hops: 10, .. }), "got {err:?}");
}

#[test]
fn fetch_retries_429_once_then_200() {
    let mut plan = FetchPlan::new(u("https://example.com/rate-limited"));
    plan.begin_hop().unwrap();
    assert_eq!(plan.on_response(429, HeaderText::Absent, HeaderText::Absent).unwrap(), FetchStep::Retry { wait_secs: 1 });
    assert_eq!(plan.on_response(200, HeaderText::Absent, HeaderText::Absent).unwrap(), FetchStep::Done { status: 200 });
}

#[test]
fn fetch_retries_503_with_retry_after() {
    let mut plan = FetchPlan::new(u("https://example.com/unavailable"));
    plan.begin_hop().unwrap();
    assert_eq!(plan.on_response(503, HeaderText::Absent, loc("7")).unwrap(), FetchStep::Retry { wait_secs: 7 });
    assert_eq!(plan.on_response(200, HeaderText::Absent, HeaderText::Absent).unwrap(), FetchStep::Done { status: 200 });
    let page = plan.finish(200, "recovered".to_owned(), Headers::new());
    assert_eq!(page.status, 200);
    assert_eq!(page.url.as_str(), "https://example.com/unavailable");
    assert!(page.redirect_chain.is_empty());
    assert_eq!(page.html, "recovered");
}

#[test]
fn fetch_exhausts_retries_returns_last_status() {
    let mut plan = FetchPlan::new(u("https://example.com/always-limited"));
    plan.begin_hop().unwrap();
    let mut waits = Vec::new();
    loop {
        match plan.on_response(429, HeaderText::Absent, HeaderText::Unreadable).unwrap() {
            FetchStep::Retry { wait_secs } => waits.push(wait_secs),
            FetchStep::Done { status } => {
                assert_eq!(status, 429);
                break;
            }
            FetchStep::Redirected => panic!("no redirect expected"),
        }
    }
    assert_eq!(waits, vec![1, 2, 4], "1 initial request + 3 retries with exponential waits");
}

#[test]
fn redirect_without_location_is_final() {
    let mut plan = FetchPlan::new(u("https://example.com/"));
    plan.begin_hop().unwrap();
    assert_eq!(plan.on_response(304, HeaderText::Absent, HeaderText::Absent).unwrap(), FetchStep::Done { status: 304 });
}

#[test]
fn unreadable_location_is_an_error() {
    let mut plan = FetchPlan::new(u("https://example.com/"));
    plan.begin_hop().unwrap();
    let err = plan.on_response(302, HeaderText::Unreadable, HeaderText::Absent).unwrap_err();
    assert!(matches!(err, SeoError::Parse(ref m) if m == "non-ASCII Location header"));
}

#[test]
fn url_without_host_is_an_error() {
    let mut plan = FetchPlan::new(u("file:///tmp/x"));
    assert!(matches!(plan.begin_hop(), Err(SeoError::Url(_))));
}

// ── Pacing ──────────────────────────────────────────────────────────────────

#[test]
fn set_min_interval_never_shrinks() {
    let five = 5_000_000_000u128;
    let two = 2_000_000_000u128;
    let first = raised_min_interval(None, five);
    assert_eq!(raised_min_interval(Some(first), two), five, "smaller value must not shrink the stored interval");
}

#[test]
fn set_min_interval_grows() {
    let first = raised_min_interval(None, 2);
    assert_eq!(raised_min_interval(Some(first), 5), 5, "larger value must update the stored interval");
}

#[test]
fn crawl_delay_waits_out_the_interval() {
    assert_eq!(crawl_delay_wait(Some(2_000), Some(500)), 1_500);
    assert_eq!(crawl_delay_wait(Some(2_000), Some(2_500)), 0);
    assert_eq!(crawl_delay_wait(Some(2_000), None), 0);
    assert_eq!(crawl_delay_wait(None, Some(1)), 0);
    assert_eq!(crawl_delay_wait(Some(0), Some(0)), 0);
}

#[test]
fn error_messages() {
    let e = SeoError::RedirectLoop { url: "https://a.example/".to_owned(), hops: 3 };
    assert_eq!(e.message(), "Redirect loop detected at https://a.example/ after 3 hops");
    assert_eq!(SeoError::Config("x".to_owned()).message(), "Config error: x");
    assert_eq!(SeoError::JobNotFound("j".to_owned()).http_status(), 404);
    assert_eq!(SeoError::Io("x".to_owned()).http_status(), 500);
}
