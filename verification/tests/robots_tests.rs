use sandslash::audit::robots::{parse_rules, RobotsAuditor};
use sandslash::crawler::robots_gate::{
    allowed_by_entry, cache_key, entry_from_fetch, is_allowed_by_rules, robots_url_for, CachedEntry,
};
use sandslash::model::Severity;
use sandslash::weburl::WebUrl;

fn assert_parsed(body: &str, star_disallow_all: bool, has_sitemap: bool) {
    let result = parse_rules(body);
    assert_eq!(result.star_disallow_all, star_disallow_all, "star_disallow_all mismatch for input: {body:?}");
    assert_eq!(result.has_sitemap, has_sitemap, "has_sitemap mismatch for input: {body:?}");
}

// ── parse_rules ─────────────────────────────────────────────────────────────

#[test]
fn empty_input() {
    assert_parsed("", false, false);
}

#[test]
fn comment_only_input() {
    assert_parsed("# just a comment\n# another line\n", false, false);
}

#[test]
fn no_star_block() {
    let body = "User-agent: Googlebot\nDisallow: /\nSitemap: https://example.com/sitemap.xml\n";
    assert_parsed(body, false, true);
}

#[test]
fn disallow_all_in_star_block() {
    let body = "User-agent: *\nDisallow: /\nSitemap: https://example.com/sitemap.xml\n";
    assert_parsed(body, true, true);
}

#[test]
fn disallow_private_in_star_block_does_not_trigger() {
    assert_parsed("User-agent: *\nDisallow: /private\n", false, false);
}

#[test]
fn sitemap_present() {
    assert_parsed("User-agent: *\nAllow: /\nSitemap: https://example.com/sitemap.xml\n", false, true);
}

#[test]
fn sitemap_absent() {
    assert_parsed("User-agent: *\nAllow: /\n", false, false);
}

#[test]
fn crlf_line_endings() {
    assert_parsed("User-agent: *\r\nDisallow: /\r\nSitemap: https://example.com/sitemap.xml\r\n", true, true);
}

#[test]
fn case_insensitive_directives() {
    assert_parsed("USER-AGENT: *\nDISALLOW: /\nSITEMAP: https://example.com/sitemap.xml\n", true, true);
}

#[test]
fn disallow_in_star_block_does_not_bleed_across_blank_line() {
    assert_parsed("User-agent: *\nAllow: /\n\nUser-agent: Badbot\nDisallow: /\n", false, false);
}

#[test]
fn disallow_prefix_captured_in_star_block() {
    let rules = parse_rules("User-agent: *\nDisallow: /private\n");
    let star = rules.disallow_prefixes.iter().find(|(ua, _)| ua == "*").expect("expected * disallow entry");
    assert!(star.1.contains(&"/private".to_owned()));
}

#[test]
fn allow_prefix_captured() {
    let rules = parse_rules("User-agent: *\nAllow: /public\nDisallow: /\n");
    let star_allow = rules.allow_prefixes.iter().find(|(ua, _)| ua == "*").expect("expected * allow entry");
    assert!(star_allow.1.contains(&"/public".to_owned()));
}

#[test]
fn crawl_delay_parsed() {
    let rules = parse_rules("User-agent: *\nCrawl-delay: 2\n");
    let (_, delay) = rules.crawl_delays.iter().find(|(ua, _)| ua == "*").expect("expected * crawl-delay");
    let secs: f64 = delay.parse().expect("a crawl delay is a decimal number");
    assert!((secs - 2.0f64).abs() < f64::EPSILON);
}

#[test]
fn crawl_delay_that_is_not_a_number_is_ignored() {
    let rules = parse_rules("User-agent: *\nCrawl-delay: soon\n");
    assert!(rules.crawl_delays.is_empty());
    let rules = parse_rules("User-agent: *\nCrawl-delay: 1.5e0\n");
    assert_eq!(rules.crawl_delays, vec![("*".to_owned(), "1.5e0".to_owned())]);
}

#[test]
fn ua_specific_block_captured() {
    let body = "User-agent: Sandslash\nDisallow: /admin\n\nUser-agent: *\nDisallow: /private\n";
    let rules = parse_rules(body);
    let sandslash = rules.disallow_prefixes.iter().find(|(ua, _)| ua == "sandslash").expect("expected sandslash disallow entry");
    assert!(sandslash.1.contains(&"/admin".to_owned()));
    let star = rules.disallow_prefixes.iter().find(|(ua, _)| ua == "*").expect("expected * disallow entry");
    assert!(star.1.contains(&"/private".to_owned()));
}

#[test]
fn inline_comments_are_stripped() {
    let rules = parse_rules("User-agent: * # everyone\nDisallow: /tmp # scratch\n");
    assert_eq!(rules.disallow_prefixes, vec![("*".to_owned(), vec!["/tmp".to_owned()])]);
}

// ── is_allowed_by_rules ─────────────────────────────────────────────────────

#[test]
fn star_disallow_private_blocks_path() {
    let rules = parse_rules("User-agent: *\nDisallow: /private\n");
    assert!(!is_allowed_by_rules(&rules, "Sandslash/0.4", "/private"), "/private must be disallowed");
}

#[test]
fn star_disallow_private_allows_public() {
    let rules = parse_rules("User-agent: *\nDisallow: /private\n");
    assert!(is_allowed_by_rules(&rules, "Sandslash/0.4", "/public"), "/public must be allowed");
}

#[test]
fn ua_specific_allow_overrides_star_disallow() {
    let body = "User-agent: *\nDisallow: /private\n\nUser-agent: Sandslash\nAllow: /private\n";
    let rules = parse_rules(body);
    assert!(is_allowed_by_rules(&rules, "Sandslash/0.4", "/private"), "UA-specific Allow must override * Disallow");
}

#[test]
fn ua_specific_disallow_applies_to_matching_ua() {
    let rules = parse_rules("User-agent: Sandslash\nDisallow: /admin\n");
    assert!(!is_allowed_by_rules(&rules, "Sandslash/0.4", "/admin"), "Sandslash UA-specific Disallow /admin must be enforced");
    assert!(is_allowed_by_rules(&rules, "Googlebot/2.1", "/admin"), "Googlebot should be allowed (no * block)");
}

#[test]
fn allow_longer_prefix_wins_over_disallow() {
    let rules = parse_rules("User-agent: *\nDisallow: /private\nAllow: /private/public\n");
    assert!(is_allowed_by_rules(&rules, "Sandslash/0.4", "/private/public/page"), "longer Allow prefix must win over shorter Disallow prefix");
    assert!(!is_allowed_by_rules(&rules, "Sandslash/0.4", "/private/secret"), "/private/secret should still be disallowed");
}

#[test]
fn equal_length_allow_and_disallow_allow() {
    let rules = parse_rules("User-agent: *\nDisallow: /page\nAllow: /page\n");
    assert!(is_allowed_by_rules(&rules, "Sandslash/0.4", "/page/1"));
}

#[test]
fn empty_rules_allows_all() {
    let rules = parse_rules("");
    assert!(is_allowed_by_rules(&rules, "Sandslash/0.4", "/anything"));
}

#[test]
fn no_matching_disallow_allows_path() {
    let rules = parse_rules("User-agent: *\nDisallow: /private\n");
    assert!(is_allowed_by_rules(&rules, "Sandslash/0.4", "/other"));
}

// ── Gating decisions ────────────────────────────────────────────────────────

#[test]
fn cache_key_is_lowercased_host() {
    let u = WebUrl::parse("https://Example.COM/a").unwrap();
    assert_eq!(cache_key(&u), Some("example.com".to_owned()));
    let f = WebUrl::parse("file:///tmp/x").unwrap();
    assert_eq!(cache_key(&f), None);
}

#[test]
fn robots_url_keeps_scheme() {
    let u = WebUrl::parse("http://example.com/deep/page?q=1").unwrap();
    let r = robots_url_for("example.com", &u).unwrap();
    assert_eq!(r.as_str(), "http://example.com/robots.txt");
}

#[test]
fn missing_robots_allows_everything() {
    let u = WebUrl::parse("https://example.com/private").unwrap();
    let entry = entry_from_fetch(Some((404, "User-agent: *\nDisallow: /\n")));
    assert!(matches!(entry, CachedEntry::Missing));
    assert!(allowed_by_entry(&entry, "Sandslash/0.4", &u));
    assert!(matches!(entry_from_fetch(None), CachedEntry::Missing));
}

#[test]
fn fetched_robots_gates_by_path() {
    let entry = entry_from_fetch(Some((200, "User-agent: *\nDisallow: /private\n")));
    let blocked = WebUrl::parse("https://example.com/private/x").unwrap();
    let open = WebUrl::parse("https://example.com/public").unwrap();
    assert!(!allowed_by_entry(&entry, "Sandslash/0.4", &blocked));
    assert!(allowed_by_entry(&entry, "Sandslash/0.4", &open));
}

// ── Auditor decisions ───────────────────────────────────────────────────────

#[test]
fn robots_404_emits_missing_warning() {
    let findings = RobotsAuditor.findings(Some((404, "Not Found")));
    assert_eq!(findings.len(), 1, "expected 1 finding, got: {findings:?}");
    assert_eq!(findings[0].check_id, "robots.missing");
    assert_eq!(findings[0].severity, Severity::Warning);
    assert_eq!(findings[0].penalty, 15);
}

#[test]
fn robots_unreachable_emits_missing_warning() {
    let findings = RobotsAuditor.findings(None);
    assert_eq!(findings.len(), 1);
    assert_eq!(findings[0].check_id, "robots.missing");
}

#[test]
fn robots_disallow_all_emits_critical() {
    let findings = RobotsAuditor.findings(Some((200, "User-agent: *\nDisallow: /\n")));
    let ids: Vec<&str> = findings.iter().map(|f| f.check_id.as_str()).collect();
    assert_eq!(ids, vec!["robots.disallow-all", "robots.no-sitemap"]);
    assert_eq!(findings[0].severity, Severity::Critical);
    assert_eq!(findings[0].penalty, 40);
}

#[test]
fn robots_no_sitemap_emits_info() {
    let findings = RobotsAuditor.findings(Some((200, "User-agent: *\nAllow: /\n")));
    assert_eq!(findings.len(), 1, "expected 1 finding, got: {findings:?}");
    assert_eq!(findings[0].check_id, "robots.no-sitemap");
    assert_eq!(findings[0].severity, Severity::Info);
    assert_eq!(findings[0].penalty, 5);
}

#[test]
fn robots_clean_emits_no_findings() {
    let findings = RobotsAuditor.findings(Some((200, "User-agent: *\nAllow: /\nSitemap: https://example.com/sitemap.xml\n")));
    assert!(findings.is_empty(), "got: {findings:?}");
}

#[test]
fn robots_url_is_site_root_robots() {
    let page = WebUrl::parse("https://example.com/a/b?c=d").unwrap();
    assert_eq!(RobotsAuditor::robots_url(&page).unwrap().as_str(), "https://example.com/robots.txt");
    assert_eq!(RobotsAuditor.id(), "robots");
}

#[test]
fn user_agent_after_rules_starts_new_block() {
    let rules = parse_rules("User-agent: *\nAllow: /\nUser-agent: Badbot\nDisallow: /\n");
    assert!(!rules.star_disallow_all);
    assert_eq!(rules.disallow_prefixes, vec![("badbot".to_owned(), vec!["/".to_owned()])]);
    assert_eq!(rules.allow_prefixes, vec![("*".to_owned(), vec!["/".to_owned()])]);
    assert!(is_allowed_by_rules(&rules, "Mozilla", "/page"));
    assert!(!is_allowed_by_rules(&rules, "BadBot/1.0", "/page"));
}

#[test]
fn consecutive_user_agents_share_a_block() {
    let rules = parse_rules("User-agent: A\nUser-agent: B\nDisallow: /x\n");
    assert_eq!(
        rules.disallow_prefixes,
        vec![("a".to_owned(), vec!["/x".to_owned()]), ("b".to_owned(), vec!["/x".to_owned()])]
    );
}
