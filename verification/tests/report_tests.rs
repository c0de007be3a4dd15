use sandslash::cli::AuditArgs;
use sandslash::config::CrawlConfig;
use sandslash::error::SeoError;
use sandslash::model::{finding, AuditReport, Category, PageData, PageReport, Severity};
use sandslash::pipeline::{
    after_root_fetch, after_root_robots, emit_plan, empty_report, job_id_for, redirect_loop_report, redis_url_for,
    run_start, EmitPlan, RootStep, RunAction,
};
use sandslash::report::terminal::{score_color, write_terminal, TerminalOpts};
use sandslash::paint::AnsiColor;
use sandslash::server::progress::ProgressEvent;
use sandslash::server::routes::{job_is_live, replay, scan_step, start_config, StartAuditRequest, StreamItem, StreamOut};
use sandslash::weburl::WebUrl;

fn url(s: &str) -> WebUrl {
    WebUrl::parse(s).expect("invariant: valid url")
}

fn make_page(u: &str, score: u8, findings: Vec<sandslash::model::Finding>) -> PageReport {
    PageReport {
        url: url(u),
        findings,
        category_scores: Category::all().into_iter().map(|c| (c, score)).collect(),
        score,
    }
}

fn make_report_single(score: u8) -> AuditReport {
    AuditReport {
        root: url("https://example.com/"),
        pages: vec![make_page("https://example.com/", score, vec![])],
        site_score: score,
        crawled_at: "2026-01-01T00:00:00Z".to_owned(),
    }
}

fn opts(quiet: bool, no_color: bool, is_tty: bool) -> TerminalOpts {
    TerminalOpts { quiet, no_color, is_tty }
}

// ── Terminal report ─────────────────────────────────────────────────────────

#[test]
fn no_color_renders_text_without_ansi() {
    let output = write_terminal(&make_report_single(85), &opts(false, true, false));
    assert!(output.contains("https://example.com/"));
    assert!(output.contains("Metadata"));
    assert!(output.contains("85"));
    assert!(!output.contains("\x1b["));
}

#[test]
fn quiet_emits_exactly_score_plus_newline() {
    let output = write_terminal(&make_report_single(85), &opts(true, true, false));
    assert_eq!(output, "85\n");
}

#[test]
fn page_table_sorted_by_score_ascending() {
    let report = AuditReport {
        root: url("https://example.com/"),
        pages: vec![
            make_page("https://example.com/a", 80, vec![]),
            make_page(
                "https://example.com/b",
                40,
                vec![finding("title.missing", Category::Metadata, Severity::Critical, 30, "Missing title".to_owned())],
            ),
            make_page("https://example.com/c", 90, vec![]),
        ],
        site_score: 70,
        crawled_at: "2026-01-01T00:00:00Z".to_owned(),
    };
    let output = write_terminal(&report, &opts(false, true, false));
    let pos_40 = output.find("example.com/b").expect("url with score 40 should appear");
    let pos_80 = output.find("example.com/a").expect("url with score 80 should appear");
    let pos_90 = output.find("example.com/c").expect("url with score 90 should appear");
    assert!(pos_40 < pos_80, "score=40 should appear before score=80 in output");
    assert!(pos_80 < pos_90, "score=80 should appear before score=90 in output");
}

#[test]
fn header_and_bars_layout() {
    let output = write_terminal(&make_report_single(85), &opts(false, true, false));
    assert!(output.starts_with("SEO Report: https://example.com/\nSite Score: 85/100\n\nMetadata      █████████░  85\n"), "got: {output}");
    assert!(output.contains("SocialTags    █████████░  85\n"));
}

#[test]
fn bar_rounds_half_up_and_colors_on_a_terminal() {
    let output = write_terminal(&make_report_single(95), &opts(false, false, true));
    assert!(output.contains("Site Score: \x1b[32m95\x1b[39m/100"), "got: {output}");
    assert!(output.contains("██████████ \x1b[32m 95\x1b[39m\n"), "got: {output}");
    let plain = write_terminal(&make_report_single(95), &opts(false, false, false));
    assert!(!plain.contains("\x1b["));
}

#[test]
fn score_colors() {
    assert_eq!(score_color(90), AnsiColor::Green);
    assert_eq!(score_color(89), AnsiColor::Yellow);
    assert_eq!(score_color(70), AnsiColor::Yellow);
    assert_eq!(score_color(69), AnsiColor::Red);
}

// ── Server ──────────────────────────────────────────────────────────────────

#[test]
fn event_names() {
    assert_eq!(ProgressEvent::Started { job_id: "j".to_owned(), root: "r".to_owned() }.event_name(), "Started");
    assert_eq!(
        ProgressEvent::PageDone { url: "u".to_owned(), score: 1, queue_depth: 0, pages_done: 1 }.event_name(),
        "PageDone"
    );
    assert_eq!(ProgressEvent::Done { report: make_report_single(1) }.event_name(), "Done");
    assert_eq!(ProgressEvent::Error { message: "m".to_owned() }.event_name(), "Error");
}

#[test]
fn stream_ends_after_terminal_event() {
    let (out, done) = scan_step(false, StreamItem::Event(ProgressEvent::Error { message: "boom".to_owned() }));
    assert!(matches!(out, Some(StreamOut::Event(ProgressEvent::Error { .. }))));
    assert!(done);
    let (out, done) = scan_step(done, StreamItem::Lagged(3));
    assert!(out.is_none());
    assert!(done);
    let (out, done) = scan_step(false, StreamItem::Lagged(3));
    assert!(matches!(out, Some(StreamOut::Comment(ref c)) if c == "lagged 3 frames"));
    assert!(!done);
}

#[test]
fn late_subscriber_gets_started_then_terminal() {
    let (events, finished) = replay("job", "https://example.com/", Some(ProgressEvent::Error { message: "x".to_owned() }));
    assert!(finished);
    assert_eq!(events.len(), 2);
    assert_eq!(events[0].event_name(), "Started");
    assert_eq!(events[1].event_name(), "Error");
    let (events, finished) = replay("job", "https://example.com/", None);
    assert!(!finished);
    assert_eq!(events.len(), 1);
}

#[test]
fn start_config_defaults() {
    let req = StartAuditRequest { url: "https://example.com/".to_owned(), depth: None, concurrency: None, max_pages: Some(5) };
    let c = start_config(&req).unwrap();
    assert_eq!(c.root.as_str(), "https://example.com/");
    assert_eq!((c.depth, c.concurrency, c.rate_per_host, c.timeout_secs), (1, 4, 2, 30));
    assert_eq!(c.max_pages, Some(5));
    assert!(c.respect_robots && c.quiet && c.no_color);
    assert_eq!(c.user_agent, CrawlConfig::DEFAULT_UA);
    let bad = StartAuditRequest { url: "not a url".to_owned(), depth: Some(0), concurrency: None, max_pages: None };
    assert!(matches!(start_config(&bad), Err(SeoError::Url(_))));
    assert!(job_is_live(599));
    assert!(!job_is_live(600));
}

// ── Pipeline decisions ──────────────────────────────────────────────────────

#[test]
fn redirect_loop_becomes_a_one_page_report() {
    let r = redirect_loop_report("https://example.com/loop", 10, url("https://example.com/"), "t".to_owned()).unwrap();
    assert_eq!(r.pages.len(), 1);
    assert_eq!(r.pages[0].url.as_str(), "https://example.com/loop");
    assert_eq!(r.pages[0].findings[0].check_id, "redirects.loop");
    assert_eq!(r.pages[0].findings[0].message, "Redirect loop detected at https://example.com/loop after 10 hops");
    // Links weighs 15%: 0.15 * 60 + 85 = 94.
    assert_eq!(r.pages[0].score, 94);
    assert_eq!(r.pages[0].category_score(Category::Links), Some(60));
    assert_eq!(r.pages[0].category_score(Category::Metadata), Some(100));
    assert_eq!(r.site_score, 94);
    assert!(redirect_loop_report("::", 1, url("https://example.com/"), "t".to_owned()).is_err());
}

#[test]
fn disallowed_root_gives_empty_report() {
    let r = empty_report(url("https://example.com/"), "t".to_owned());
    assert!(r.pages.is_empty());
    assert_eq!(r.site_score, 100);
}

#[test]
fn depth_nonzero_without_redis_url_returns_config_error() {
    let args = AuditArgs {
        url: "http://example.com/".to_owned(),
        depth: 1,
        concurrency: 1,
        rate: 10,
        redis_url: None,
        user_agent: Some("test-agent".to_owned()),
        timeout: 5,
        max_pages: None,
        global_timeout: None,
        ignore_robots: true,
        validate_sitemap: false,
        quiet: true,
        no_color: true,
        output: None,
        check_external_links: false,
        verbose: false,
    };
    let config = args.into_config().unwrap();
    let err = redis_url_for(&config).unwrap_err();
    assert!(matches!(err, SeoError::Config(_)), "expected SeoError::Config, got {err:?}");
}

#[test]
fn reports_go_where_asked() {
    assert_eq!(emit_plan(true, false), EmitPlan::ScoreOnly);
    assert_eq!(emit_plan(true, true), EmitPlan::JsonToFile);
    assert_eq!(emit_plan(false, true), EmitPlan::JsonToFile);
    assert_eq!(emit_plan(false, false), EmitPlan::JsonToStdout);
    assert_eq!(job_id_for(1700000000000), "seo-rs-1700000000000");
    assert_eq!(job_id_for(-5), "seo-rs--5");
    assert_eq!(job_id_for(i64::MIN), "seo-rs--9223372036854775808");
}

// ── Command-line arguments ──────────────────────────────────────────────────

fn args(url: &str) -> AuditArgs {
    AuditArgs {
        url: url.to_owned(),
        depth: 0,
        concurrency: 8,
        rate: 2,
        redis_url: None,
        user_agent: None,
        timeout: 30,
        max_pages: None,
        global_timeout: None,
        ignore_robots: false,
        validate_sitemap: false,
        quiet: false,
        no_color: false,
        output: None,
        check_external_links: false,
        verbose: false,
    }
}

#[test]
fn audit_into_config_sets_root_url() {
    let config = args("https://example.com/").into_config().expect("must build config");
    assert_eq!(config.root.as_str(), "https://example.com/");
    assert_eq!(config.depth, 0);
    assert_eq!(config.user_agent, CrawlConfig::DEFAULT_UA);
    assert!(config.respect_robots);
}

#[test]
fn audit_into_config_rejects_bad_url() {
    assert!(matches!(args("not a url").into_config(), Err(SeoError::Url(_))));
}

#[test]
fn uncolored_terminal_report_has_no_escapes() {
    for (no_color, is_tty) in [(true, true), (false, false), (true, false)] {
        let output = write_terminal(&make_report_single(55), &opts(false, no_color, is_tty));
        assert!(!output.contains('\x1b'), "{output}");
    }
    let colored = write_terminal(&make_report_single(55), &opts(false, false, true));
    assert!(colored.contains('\x1b'));
}

fn run_config(depth: u32, ignore_robots: bool, redis_url: Option<&str>) -> CrawlConfig {
    AuditArgs {
        url: "http://example.com/".to_owned(),
        depth,
        concurrency: 1,
        rate: 10,
        redis_url: redis_url.map(|s| s.to_owned()),
        user_agent: None,
        timeout: 5,
        max_pages: None,
        global_timeout: None,
        ignore_robots,
        validate_sitemap: false,
        quiet: true,
        no_color: true,
        output: None,
        check_external_links: false,
        verbose: false,
    }
    .into_config()
    .unwrap()
}

#[test]
fn depth_zero_is_a_single_page() {
    assert!(matches!(run_start(&run_config(0, false, None)), Ok(RunAction::CheckRootRobots)));
    assert!(matches!(run_start(&run_config(0, true, None)), Ok(RunAction::FetchRoot)));
    match run_start(&run_config(2, false, Some("redis://localhost"))) {
        Ok(RunAction::Crawl { redis_url }) => assert_eq!(redis_url, "redis://localhost"),
        other => panic!("expected a crawl, got {other:?}"),
    }
    assert!(matches!(run_start(&run_config(1, false, None)), Err(SeoError::Config(_))));
}

#[test]
fn disallowed_root_ends_the_run_with_an_empty_report() {
    assert!(after_root_robots(true, url("https://example.com/"), "t".to_owned()).is_none());
    let r = after_root_robots(false, url("https://example.com/"), "t".to_owned()).unwrap();
    assert!(r.pages.is_empty());
    assert_eq!(r.site_score, 100);
}

#[test]
fn root_fetch_outcomes() {
    let loop_err = SeoError::RedirectLoop { url: "https://example.com/loop".to_owned(), hops: 3 };
    match after_root_fetch(Err(loop_err), url("https://example.com/"), "t".to_owned()) {
        Ok(RootStep::Done(r)) => {
            assert_eq!(r.pages.len(), 1);
            assert_eq!(r.pages[0].findings[0].check_id, "redirects.loop");
            assert_eq!(r.site_score, 94);
        }
        _ => panic!("expected the loop report"),
    }
    let other = SeoError::Fetch { url: "https://example.com/".to_owned(), message: "down".to_owned() };
    assert!(matches!(
        after_root_fetch(Err(other), url("https://example.com/"), "t".to_owned()),
        Err(SeoError::Fetch { .. })
    ));
    let page = PageData {
        url: url("https://example.com/"),
        status: 200,
        redirect_chain: vec![],
        html: "<html></html>".to_owned(),
        headers: Default::default(),
        depth: 0,
    };
    match after_root_fetch(Ok(page), url("https://example.com/"), "t".to_owned()) {
        Ok(RootStep::Audit(p)) => assert_eq!(p.status, 200),
        _ => panic!("expected the page"),
    }
}
