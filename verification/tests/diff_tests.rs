use sandslash::diff::compute::diff_reports;
use sandslash::diff::model::{DiffReport, PageDiff, PageDiffKind};
use sandslash::diff::render::{format_delta, write_text, Summary};
use sandslash::model::{AuditReport, Category, PageReport};
use sandslash::weburl::WebUrl;

fn make_page(url: &str, score: u8) -> PageReport {
    PageReport {
        url: WebUrl::parse(url).expect("invariant: valid url"),
        findings: vec![],
        category_scores: Category::all().into_iter().map(|c| (c, score)).collect(),
        score,
    }
}

fn make_report(root: &str, pages: Vec<PageReport>, site_score: u8) -> AuditReport {
    AuditReport {
        root: WebUrl::parse(root).expect("invariant: valid url"),
        pages,
        site_score,
        crawled_at: "2026-01-01T00:00:00Z".to_owned(),
    }
}

fn find<'a>(diff: &'a DiffReport, url: &str) -> &'a PageDiff {
    diff.pages.iter().find(|p| p.url.as_str() == url).expect("page must exist in diff")
}

/// The pair of reports the command-line comparison is demonstrated with.
fn fixture_reports() -> (AuditReport, AuditReport) {
    let before = make_report(
        "https://example.com/",
        vec![
            make_page("https://example.com/", 70),
            make_page("https://example.com/about", 60),
            make_page("https://example.com/removed", 50),
        ],
        65,
    );
    let after = make_report(
        "https://example.com/",
        vec![
            make_page("https://example.com/", 70),
            make_page("https://example.com/about", 85),
            make_page("https://example.com/new", 90),
        ],
        80,
    );
    (before, after)
}

#[test]
fn identical_reports_produce_zero_deltas() {
    let page = make_page("https://example.com/", 80);
    let report = make_report("https://example.com/", vec![page], 80);

    let diff = diff_reports(&report, &report);

    assert_eq!(diff.site_score_delta, 0);
    assert_eq!(diff.before_site_score, 80);
    assert_eq!(diff.after_site_score, 80);
    for (_, delta) in &diff.category_deltas {
        assert_eq!(*delta, 0, "category delta must be zero for identical reports");
    }
    assert_eq!(diff.pages.len(), 1);
    assert_eq!(diff.pages[0].kind, PageDiffKind::Unchanged);
    assert_eq!(diff.pages[0].delta, 0);
}

#[test]
fn page_kinds_classified_correctly() {
    let before_report = make_report(
        "https://example.com/",
        vec![
            make_page("https://example.com/", 70),
            make_page("https://example.com/about", 60),
            make_page("https://example.com/removed", 50),
        ],
        60,
    );
    let after_report = make_report(
        "https://example.com/",
        vec![
            make_page("https://example.com/", 70),
            make_page("https://example.com/about", 80),
            make_page("https://example.com/new", 90),
        ],
        80,
    );

    let diff = diff_reports(&before_report, &after_report);

    let unchanged = find(&diff, "https://example.com/");
    assert_eq!(unchanged.kind, PageDiffKind::Unchanged);
    assert_eq!(unchanged.delta, 0);
    assert_eq!(unchanged.before_score, Some(70));
    assert_eq!(unchanged.after_score, Some(70));

    let changed = find(&diff, "https://example.com/about");
    assert_eq!(changed.kind, PageDiffKind::Changed);
    assert_eq!(changed.delta, 20);
    assert_eq!(changed.before_score, Some(60));
    assert_eq!(changed.after_score, Some(80));

    let removed = find(&diff, "https://example.com/removed");
    assert_eq!(removed.kind, PageDiffKind::Removed);
    assert_eq!(removed.delta, 0);
    assert_eq!(removed.before_score, Some(50));
    assert_eq!(removed.after_score, None);

    let added = find(&diff, "https://example.com/new");
    assert_eq!(added.kind, PageDiffKind::Added);
    assert_eq!(added.delta, 0);
    assert_eq!(added.before_score, None);
    assert_eq!(added.after_score, Some(90));
}

#[test]
fn site_score_delta_computed_correctly() {
    let before = make_report("https://example.com/", vec![make_page("https://example.com/", 60)], 60);
    let after = make_report("https://example.com/", vec![make_page("https://example.com/", 85)], 85);

    let diff = diff_reports(&before, &after);

    assert_eq!(diff.before_site_score, 60);
    assert_eq!(diff.after_site_score, 85);
    assert_eq!(diff.site_score_delta, 25);
}

#[test]
fn category_deltas_computed_as_means() {
    // Before: category scores 40 and 60, mean 50. After: 70 and 90, mean 80.
    let before = make_report(
        "https://example.com/",
        vec![make_page("https://example.com/a", 40), make_page("https://example.com/b", 60)],
        50,
    );
    let after = make_report(
        "https://example.com/",
        vec![make_page("https://example.com/a", 70), make_page("https://example.com/b", 90)],
        80,
    );

    let diff = diff_reports(&before, &after);

    for cat in Category::all() {
        let delta = diff.category_delta(cat).expect("every category is scored");
        assert_eq!(delta, 30, "expected delta=30 for {cat:?}, got {delta}");
    }
}

#[test]
fn pages_sorted_by_delta_ascending() {
    let before = make_report(
        "https://example.com/",
        vec![
            make_page("https://example.com/a", 90),
            make_page("https://example.com/b", 50),
            make_page("https://example.com/c", 70),
        ],
        70,
    );
    let after = make_report(
        "https://example.com/",
        vec![
            make_page("https://example.com/a", 70),
            make_page("https://example.com/b", 80),
            make_page("https://example.com/c", 70),
        ],
        73,
    );

    let diff = diff_reports(&before, &after);

    let deltas: Vec<i16> = diff.pages.iter().map(|p| p.delta).collect();
    assert_eq!(deltas, vec![-20, 0, 30]);
}

#[test]
fn equal_deltas_are_ordered_by_url() {
    let before = make_report(
        "https://example.com/",
        vec![make_page("https://example.com/z", 50), make_page("https://example.com/a", 50)],
        50,
    );
    let diff = diff_reports(&before, &before);
    let urls: Vec<&str> = diff.pages.iter().map(|p| p.url.as_str()).collect();
    assert_eq!(urls, vec!["https://example.com/a", "https://example.com/z"]);
}

#[test]
fn a_url_listed_twice_counts_its_last_entry() {
    let before = make_report(
        "https://example.com/",
        vec![make_page("https://example.com/a", 10), make_page("https://example.com/a", 40)],
        25,
    );
    let after = make_report("https://example.com/", vec![make_page("https://example.com/a", 50)], 50);
    let diff = diff_reports(&before, &after);
    assert_eq!(diff.pages.len(), 1);
    assert_eq!(diff.pages[0].before_score, Some(40));
    assert_eq!(diff.pages[0].delta, 10);
}

#[test]
fn category_absent_from_both_sides_has_no_delta() {
    let mut page = make_page("https://example.com/", 80);
    page.category_scores.retain(|(c, _)| *c != Category::Media);
    let report = make_report("https://example.com/", vec![page], 80);
    let diff = diff_reports(&report, &report);
    assert_eq!(diff.category_delta(Category::Media), None);
    assert_eq!(diff.category_delta(Category::Links), Some(0));
    assert_eq!(diff.category_deltas.len(), 6);
}

#[test]
fn diff_report_fields_match_fixtures() {
    let (before, after) = fixture_reports();
    let report = diff_reports(&before, &after);

    assert_eq!(report.before_site_score, 65);
    assert_eq!(report.after_site_score, 80);
    assert_eq!(report.site_score_delta, 15);
    assert_eq!(report.pages.len(), 4, "expected 4 pages in diff");

    let unchanged = find(&report, "https://example.com/");
    assert_eq!(unchanged.kind, PageDiffKind::Unchanged);
    assert_eq!(unchanged.delta, 0);
    assert_eq!(unchanged.before_score, Some(70));
    assert_eq!(unchanged.after_score, Some(70));

    let changed = find(&report, "https://example.com/about");
    assert_eq!(changed.kind, PageDiffKind::Changed);
    assert_eq!(changed.delta, 25);
    assert_eq!(changed.before_score, Some(60));
    assert_eq!(changed.after_score, Some(85));

    let removed = find(&report, "https://example.com/removed");
    assert_eq!(removed.kind, PageDiffKind::Removed);
    assert_eq!(removed.before_score, Some(50));
    assert_eq!(removed.after_score, None);

    let added = find(&report, "https://example.com/new");
    assert_eq!(added.kind, PageDiffKind::Added);
    assert_eq!(added.before_score, None);
    assert_eq!(added.after_score, Some(90));
}

#[test]
fn no_color_output_has_no_ansi_codes() {
    let before = make_report("https://example.com/", vec![make_page("https://example.com/", 60)], 60);
    let after = make_report("https://example.com/", vec![make_page("https://example.com/", 80)], 80);

    let diff = diff_reports(&before, &after);
    let text = write_text(&diff, true);

    assert!(!text.contains("\x1b["), "no_color=true must not emit ANSI codes");
}

#[test]
fn colored_output_paints_deltas() {
    let before = make_report("https://example.com/", vec![make_page("https://example.com/", 60)], 60);
    let after = make_report("https://example.com/", vec![make_page("https://example.com/", 80)], 80);
    let text = write_text(&diff_reports(&before, &after), false);
    assert!(text.contains("Site score: 60 → 80 (\x1b[32m+20\x1b[39m)"), "got: {text}");
    let back = write_text(&diff_reports(&after, &before), false);
    assert!(back.contains("(\x1b[31m-20\x1b[39m)"), "got: {back}");
}

#[test]
fn summary_line_contains_counts() {
    let before = make_report(
        "https://example.com/",
        vec![make_page("https://example.com/", 70), make_page("https://example.com/removed", 50)],
        60,
    );
    let after = make_report(
        "https://example.com/",
        vec![make_page("https://example.com/", 70), make_page("https://example.com/new", 90)],
        80,
    );

    let diff = diff_reports(&before, &after);
    let text = write_text(&diff, true);

    assert!(text.contains("0 regressions"), "expected '0 regressions' in: {text}");
    assert!(text.contains("0 improvements"), "expected '0 improvements' in: {text}");
    assert!(text.contains("1 unchanged"), "expected '1 unchanged' in: {text}");
    assert!(text.contains("1 added"), "expected '1 added' in: {text}");
    assert!(text.contains("1 removed"), "expected '1 removed' in: {text}");
}

#[test]
fn diff_text_starts_with_summary_and_site_line() {
    let (before, after) = fixture_reports();
    let text = write_text(&diff_reports(&before, &after), true);
    assert!(text.starts_with(
        "0 regressions, 1 improvements, 1 unchanged, 1 added, 1 removed\nSite score: 65 → 80 (+15)\n\n"
    ), "got: {text}");
    assert!(text.ends_with("\n"));
    assert!(text.contains("Crawlability"));
    assert!(text.contains("https://example.com/about"));
}

#[test]
fn summary_counts_kinds() {
    let (before, after) = fixture_reports();
    let s = Summary::from_report(&diff_reports(&before, &after));
    assert_eq!((s.regressions, s.improvements, s.unchanged, s.added, s.removed), (0, 1, 1, 1, 1));
    let s = Summary::from_report(&diff_reports(&after, &before));
    assert_eq!((s.regressions, s.improvements, s.unchanged, s.added, s.removed), (1, 0, 1, 1, 1));
}

#[test]
fn format_delta_signs() {
    assert_eq!(format_delta(15), "+15");
    assert_eq!(format_delta(0), "0");
    assert_eq!(format_delta(-7), "-7");
    assert_eq!(format_delta(-255), "-255");
}

#[test]
fn swapping_the_reports_negates_the_comparison() {
    let (before, after) = fixture_reports();
    let d1 = diff_reports(&before, &after);
    let d2 = diff_reports(&after, &before);
    assert_eq!(d2.site_score_delta, -d1.site_score_delta);
    assert_eq!(d1.category_deltas.len(), d2.category_deltas.len());
    for ((c1, v1), (c2, v2)) in d1.category_deltas.iter().zip(d2.category_deltas.iter()) {
        assert_eq!(c1, c2);
        assert_eq!(*v2, -*v1);
    }
    for p in &d1.pages {
        let q = find(&d2, p.url.as_str());
        assert_eq!(q.delta, -p.delta);
        assert_eq!(q.before_score, p.after_score);
        assert_eq!(q.after_score, p.before_score);
        let expected = match p.kind {
            PageDiffKind::Added => PageDiffKind::Removed,
            PageDiffKind::Removed => PageDiffKind::Added,
            k => k,
        };
        assert_eq!(q.kind, expected);
    }
    assert_eq!(d1.pages.len(), d2.pages.len());
}
