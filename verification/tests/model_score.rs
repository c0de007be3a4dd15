use sandslash::config::CrawlConfig;
use sandslash::model::{finding, Category, Finding, PageReport, Severity};
use sandslash::score::{mean_score, score_page, score_site};
use sandslash::weburl::WebUrl;

fn url() -> WebUrl {
    WebUrl::parse("https://example.com/").unwrap()
}

fn title_missing(penalty: u8) -> Finding {
    finding("title.missing", Category::Metadata, Severity::Critical, penalty, "no title".to_owned())
}

fn score_of(report: &PageReport, cat: Category) -> u8 {
    report.category_score(cat).unwrap()
}

#[test]
fn category_weights_sum_to_100() {
    let total: u32 = Category::all().iter().map(|c| c.weight() as u32).sum();
    assert_eq!(total, 100);
}

#[test]
fn category_all_has_seven_variants() {
    assert_eq!(Category::all().len(), 7);
}

#[test]
fn category_all_lists_each_category_once_in_report_order() {
    let all = Category::all();
    let names: Vec<&str> = all.iter().map(|c| c.name()).collect();
    assert_eq!(
        names,
        vec!["Metadata", "SocialTags", "Structure", "Links", "Media", "Crawlability", "Security"]
    );
}

#[test]
fn default_ua_contains_version() {
    assert!(CrawlConfig::DEFAULT_UA.starts_with("sandslash/"));
    assert!(CrawlConfig::DEFAULT_UA.contains("0.1.0"));
}

#[test]
fn no_findings_scores_100() {
    let report = score_page(url(), vec![]);
    assert_eq!(report.score, 100);
    assert!(report.category_scores.iter().all(|&(_, s)| s == 100));
}

#[test]
fn critical_metadata_penalty_reduces_score() {
    let report = score_page(url(), vec![title_missing(30)]);
    assert!(report.score < 100);
    assert_eq!(score_of(&report, Category::Metadata), 70);
    // Metadata weighs 20%: 0.2 * 70 + 0.8 * 100 = 94.
    assert_eq!(report.score, 94);
}

#[test]
fn score_site_returns_mean() {
    let r1 = score_page(url(), vec![]);
    let r2 = score_page(url(), vec![title_missing(100)]);
    let site = score_site(&[r1, r2]);
    assert_eq!(site, 90); // (100 + 80) / 2
}

#[test]
fn score_site_empty_returns_0() {
    assert_eq!(score_site(&[]), 0);
}

#[test]
fn penalty_clamped_at_zero() {
    let report = score_page(url(), vec![title_missing(255)]);
    assert_eq!(score_of(&report, Category::Metadata), 0);
}

#[test]
fn penalties_of_one_category_add_up() {
    let report = score_page(url(), vec![title_missing(30), title_missing(30)]);
    assert_eq!(score_of(&report, Category::Metadata), 40);
    assert_eq!(score_of(&report, Category::Links), 100);
}

#[test]
fn page_score_rounds_half_up() {
    // SocialTags weighs 5%: 0.05 * 90 + 0.95 * 100 = 99.5, which rounds to 100.
    let f = finding("og.title.missing", Category::SocialTags, Severity::Info, 10, "x".to_owned());
    let report = score_page(url(), vec![f]);
    assert_eq!(score_of(&report, Category::SocialTags), 90);
    assert_eq!(report.score, 100);
    // Media weighs 10%: 0.1 * 95 + 0.9 * 100 = 99.5 → 100; 0.1 * 85 + 90 = 98.5 → 99.
    let g = finding("images.missing-alt", Category::Media, Severity::Warning, 15, "x".to_owned());
    assert_eq!(score_page(url(), vec![g]).score, 99);
}

#[test]
fn finding_in_one_category_leaves_others_at_100() {
    let f = finding("https.insecure", Category::Security, Severity::Critical, 40, "x".to_owned());
    let report = score_page(url(), vec![f]);
    for c in Category::all() {
        if c != Category::Security {
            assert_eq!(score_of(&report, c), 100);
        }
    }
    assert_eq!(score_of(&report, Category::Security), 60);
}

#[test]
fn more_findings_never_raise_the_score() {
    let a = score_page(url(), vec![title_missing(10)]).score;
    let b = score_page(url(), vec![title_missing(10), title_missing(5)]).score;
    assert!(b <= a);
}

#[test]
fn site_score_lies_between_page_scores() {
    let pages = vec![
        score_page(url(), vec![title_missing(100)]),
        score_page(url(), vec![]),
        score_page(url(), vec![title_missing(50)]),
    ];
    let lo = pages.iter().map(|p| p.score).min().unwrap();
    let hi = pages.iter().map(|p| p.score).max().unwrap();
    let site = score_site(&pages);
    assert!(lo <= site && site <= hi);
}

#[test]
fn mean_score_rounds_down() {
    assert_eq!(mean_score(&[1, 2]), 1);
    assert_eq!(mean_score(&[255, 255, 254]), 254);
    assert_eq!(mean_score(&[]), 0);
}

#[test]
fn site_score_ignores_page_order() {
    let a = score_page(url(), vec![]);
    let b = score_page(url(), vec![title_missing(100)]);
    let c = score_page(url(), vec![title_missing(30)]);
    let one = score_site(&[a.clone(), b.clone(), c.clone()]);
    let two = score_site(&[c, a, b]);
    assert_eq!(one, two);
    assert_eq!(one, 91);
}

#[test]
fn page_category_scores_name_each_category_once() {
    let r = score_page(url(), vec![title_missing(30)]);
    for (i, (c, _)) in r.category_scores.iter().enumerate() {
        assert!(r.category_scores[i + 1..].iter().all(|(d, _)| d != c));
    }
    assert_eq!(r.category_scores.len(), 7);
}
