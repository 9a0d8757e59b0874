use org_pulse::activity::{CommitRecord, PullRequestRecord};
use org_pulse::pattern::IgnorePattern;
use org_pulse::scraper::{accepted_lines, aggregate_repository, aggregate_repository_checked};
use org_pulse::timestamp::Timestamp;
use org_pulse::aggregate::ScrapeContributor;
use org_pulse::aggregate::TempRepoScrape;
use org_pulse::config::AppConfig;
use org_pulse::scrape::Scrape;
use org_pulse::scraper::ignore_patterns;
use org_pulse::scraper::is_last_page;
use org_pulse::scraper::snapshot_window;

fn commit(author: &str) -> CommitRecord {
    CommitRecord { author: Some(author.to_string()) }
}

fn merged_pr(author: &str, additions: u64, deletions: u64, merged_at: Timestamp) -> PullRequestRecord {
    PullRequestRecord {
        author: Some(author.to_string()),
        merged_at: Some(merged_at),
        additions: Some(additions),
        deletions: Some(deletions),
    }
}

#[test]
fn ignored_author_is_not_counted() {
    let pattern = match IgnorePattern::new("bob") {
        Ok(p) => p,
        Err(_) => panic!("pattern should compile"),
    };
    let commits = vec![commit("alice"), commit("alice"), commit("bob")];
    let since = Timestamp { seconds: 1_000, nanos: 0 };
    let agg = aggregate_repository(&commits, &Vec::new(), &pattern, &since).expect("commits were given");
    assert_eq!(agg.total_commits, 2);
    assert_eq!(agg.contributors.len(), 1);
    assert_eq!(agg.contributors[0].username, "alice");
    assert_eq!(agg.contributors[0].commits, 2);
    assert_eq!(agg.contributors[0].lines, 0);
}

#[test]
fn pull_request_window_decides_acceptance() {
    let pattern = IgnorePattern::new("^$").ok().expect("pattern should compile");
    let t0 = Timestamp { seconds: 1_700_000_000, nanos: 0 };
    let start = Timestamp { seconds: t0.seconds - 1, nanos: 0 };
    let commits = vec![commit("carol")];
    let accepted = aggregate_repository(&commits, &vec![merged_pr("carol", 10, 5, t0)], &pattern, &start).unwrap();
    assert_eq!(accepted.total_lines, 15);
    assert_eq!(accepted.total_prs, 1);
    assert_eq!(accepted.contributors[0].lines, 15);

    let late_start = Timestamp { seconds: t0.seconds + 1, nanos: 0 };
    let rejected = aggregate_repository(&commits, &vec![merged_pr("carol", 10, 5, t0)], &pattern, &late_start).unwrap();
    assert_eq!(rejected.total_lines, 0);
    assert_eq!(rejected.total_prs, 0);
    assert_eq!(rejected.total_commits, 1);
    assert_eq!(rejected.contributors[0].lines, 0);
}

fn pattern(text: &str) -> IgnorePattern {
    match IgnorePattern::new(text) {
        Ok(p) => p,
        Err(_) => panic!("pattern should compile"),
    }
}

#[test]
fn ignored_commit_leaves_counters_unchanged() {
    let p = pattern("^bot-");
    let mut agg = TempRepoScrape::new("acme", "widgets");
    agg.process_commit(&commit("alice"), &p);
    agg.process_commit(&commit("bot-release"), &p);
    assert_eq!(agg.total_commits, 1);
    assert_eq!(agg.contributors.len(), 1);
    assert_eq!(agg.contributors[0].commits, 1);
}

#[test]
fn counters_are_sums_of_accepted_records() {
    let p = pattern("dependabot");
    let start = Timestamp { seconds: 100, nanos: 0 };
    let at = Timestamp { seconds: 200, nanos: 0 };
    let commits = vec![commit("alice"), commit("dependabot"), commit("bob"), commit("alice")];
    let prs = vec![
        merged_pr("alice", 3, 4, at),
        merged_pr("dependabot", 100, 100, at),
        merged_pr("bob", 1, 0, at),
        PullRequestRecord { author: Some("bob".to_string()), merged_at: None, additions: Some(50), deletions: None },
    ];
    let agg = aggregate_repository(&commits, &prs, &p, &start).unwrap();
    assert_eq!(agg.total_commits, 3);
    assert_eq!(agg.total_lines, 8);
    assert_eq!(agg.total_prs, 2);
    let commits_sum: u64 = agg.contributors.iter().map(|c| c.commits).sum();
    let lines_sum: u64 = agg.contributors.iter().map(|c| c.lines).sum();
    assert_eq!(commits_sum, agg.total_commits);
    assert_eq!(lines_sum, agg.total_lines);
    assert_eq!(agg.contributors[0].username, "alice");
    assert_eq!(agg.contributors[0].commits, 2);
    assert_eq!(agg.contributors[0].lines, 7);
    assert_eq!(agg.contributors[1].username, "bob");
    assert_eq!(agg.contributors[1].commits, 1);
    assert_eq!(agg.contributors[1].lines, 1);
}

#[test]
fn repository_without_commits_yields_no_snapshot() {
    let p = pattern("^$");
    let start = Timestamp { seconds: 100, nanos: 0 };
    let prs = vec![merged_pr("carol", 10, 5, Timestamp { seconds: 150, nanos: 0 })];
    assert!(aggregate_repository(&Vec::new(), &prs, &p, &start).is_none());
}

#[test]
fn repository_with_only_ignored_commits_keeps_its_row() {
    let p = pattern("bob");
    let start = Timestamp { seconds: 100, nanos: 0 };
    let agg = aggregate_repository(&vec![commit("bob")], &Vec::new(), &p, &start).unwrap();
    assert_eq!(agg.total_commits, 0);
    assert!(agg.contributors.is_empty());
}

#[test]
fn missing_author_is_anonymous() {
    let p = pattern("^nobody$");
    let start = Timestamp { seconds: 0, nanos: 0 };
    let commits = vec![CommitRecord { author: None }];
    let prs = vec![PullRequestRecord {
        author: None,
        merged_at: Some(Timestamp { seconds: 5, nanos: 0 }),
        additions: None,
        deletions: Some(2),
    }];
    let agg = aggregate_repository(&commits, &prs, &p, &start).unwrap();
    assert_eq!(agg.contributors.len(), 1);
    assert_eq!(agg.contributors[0].username, "anonymous");
    assert_eq!(agg.contributors[0].commits, 1);
    assert_eq!(agg.contributors[0].lines, 2);
}

#[test]
fn anonymous_can_be_ignored() {
    let p = pattern("anon");
    let start = Timestamp { seconds: 0, nanos: 0 };
    let agg = aggregate_repository(&vec![CommitRecord { author: None }], &Vec::new(), &p, &start).unwrap();
    assert_eq!(agg.total_commits, 0);
}

#[test]
fn merge_at_window_start_counts() {
    let p = pattern("^$");
    let start = Timestamp { seconds: 100, nanos: 500 };
    let commits = vec![commit("dave")];
    let same = aggregate_repository(&commits, &vec![merged_pr("dave", 1, 1, start)], &p, &start).unwrap();
    assert_eq!(same.total_prs, 1);
    let just_before = Timestamp { seconds: 100, nanos: 499 };
    let early = aggregate_repository(&commits, &vec![merged_pr("dave", 1, 1, just_before)], &p, &start).unwrap();
    assert_eq!(early.total_prs, 0);
}

#[test]
fn ignored_pull_request_leaves_counters_unchanged() {
    let p = pattern("bob");
    let mut agg = TempRepoScrape::new("acme", "widgets");
    agg.process_pr(&merged_pr("bob", 4, 4, Timestamp { seconds: 1, nanos: 0 }), &p);
    assert_eq!(agg.total_prs, 0);
    assert_eq!(agg.total_lines, 0);
    assert!(agg.contributors.is_empty());
    agg.process_pr(&merged_pr("erin", 4, 4, Timestamp { seconds: 1, nanos: 0 }), &p);
    assert_eq!(agg.total_prs, 1);
    assert_eq!(agg.total_lines, 8);
    assert_eq!(agg.total_commits, 0);
}

#[test]
fn scrape_compiles_its_pattern_per_record() {
    let mut s = Scrape {
        org: "acme".to_string(),
        repo: "widgets".to_string(),
        ignored_user_patterns: "^ci$".to_string(),
        contributors: Vec::new(),
        commits: 0,
        prs: 0,
        lines: 0,
    };
    assert!(s.process_commit(&commit("ci")).is_ok());
    assert!(s.process_commit(&commit("frank")).is_ok());
    assert!(s.process_pr(&merged_pr("frank", 2, 3, Timestamp { seconds: 1, nanos: 0 })).is_ok());
    assert_eq!(s.commits, 1);
    assert_eq!(s.prs, 1);
    assert_eq!(s.lines, 5);
    assert_eq!(s.contributors.len(), 1);
    assert_eq!(s.contributors[0].username, "frank");
    assert_eq!(s.contributors[0].lines, 5);
}

#[test]
fn scrape_reports_malformed_pattern() {
    let mut s = Scrape {
        org: "acme".to_string(),
        repo: "widgets".to_string(),
        ignored_user_patterns: "foo(bar".to_string(),
        contributors: Vec::new(),
        commits: 0,
        prs: 0,
        lines: 0,
    };
    match s.process_commit(&commit("frank")) {
        Err(e) => assert_eq!(e.pattern, "foo(bar"),
        Ok(()) => panic!("the pattern does not compile"),
    }
    assert_eq!(s.commits, 0);
    assert!(s.contributors.is_empty());
}

#[test]
fn malformed_pattern_is_rejected() {
    assert!(IgnorePattern::new("foo(bar").is_err());
}

#[test]
fn pattern_matches_anywhere_in_name() {
    let p = pattern("bot");
    assert!(p.is_ignored("dependabot"));
    assert!(p.is_ignored("bot"));
    assert!(!p.is_ignored("alice"));
}

#[test]
fn new_contributor_starts_empty() {
    let c = ScrapeContributor::new("grace");
    assert_eq!(c.username, "grace");
    assert_eq!(c.commits, 0);
    assert_eq!(c.lines, 0);
}

#[test]
fn config_patterns_compile_up_front() {
    let mut cfg = AppConfig::default();
    cfg.ignored_org_pattern = "^archive-".to_string();
    cfg.ignored_user_patterns = "\\[bot\\]$".to_string();
    let (org, user) = match ignore_patterns(&cfg) {
        Ok(p) => p,
        Err(_) => panic!("both patterns compile"),
    };
    assert!(org.is_ignored("archive-2019"));
    assert!(!org.is_ignored("acme"));
    assert!(user.is_ignored("renovate[bot]"));
    cfg.ignored_user_patterns = "(".to_string();
    match ignore_patterns(&cfg) {
        Err(e) => assert_eq!(e.pattern, "("),
        Ok(_) => panic!("the user pattern does not compile"),
    }
}

#[test]
fn default_config() {
    let cfg = AppConfig::default();
    assert!(cfg.organizations.is_empty());
    assert_eq!(cfg.days, 7);
    assert!(cfg.include_private);
    assert_eq!(cfg.rate_limit_delay_ms, 500);
    assert_eq!(cfg.ignored_org_pattern, "");
}

#[test]
fn window_spans_lookback_days() {
    let now = Timestamp { seconds: 1_700_000_000, nanos: 42 };
    let (start, end) = snapshot_window(now, 7).unwrap();
    assert_eq!(end, now);
    assert_eq!(start, Timestamp { seconds: 1_700_000_000 - 7 * 86_400, nanos: 42 });
    assert!(snapshot_window(Timestamp { seconds: i64::MIN + 10, nanos: 0 }, 1).is_none());
}

#[test]
fn short_page_is_last() {
    assert!(is_last_page(0));
    assert!(is_last_page(49));
    assert!(!is_last_page(50));
}

#[test]
fn accepted_lines_skip_ignored_and_early_pull_requests() {
    let p = pattern("bob");
    let start = Timestamp { seconds: 100, nanos: 0 };
    let at = Timestamp { seconds: 200, nanos: 0 };
    let before = Timestamp { seconds: 50, nanos: 0 };
    let prs = vec![
        merged_pr("alice", 3, 4, at),
        merged_pr("bob", u64::MAX, u64::MAX, at),
        merged_pr("carol", u64::MAX, 1, before),
    ];
    assert_eq!(accepted_lines(&prs, &p, &start), Some(7));
    let agg = aggregate_repository_checked(&vec![commit("alice")], &prs, &p, &start).unwrap().unwrap();
    assert_eq!(agg.total_lines, 7);
    assert_eq!(agg.total_prs, 1);
}

#[test]
fn overflowing_accepted_lines_are_reported() {
    let p = pattern("^$");
    let start = Timestamp { seconds: 100, nanos: 0 };
    let at = Timestamp { seconds: 200, nanos: 0 };
    let prs = vec![merged_pr("alice", u64::MAX, 0, at), merged_pr("dave", 1, 0, at)];
    assert_eq!(accepted_lines(&prs, &p, &start), None);
    assert!(aggregate_repository_checked(&vec![commit("alice")], &prs, &p, &start).is_none());
    assert!(matches!(aggregate_repository_checked(&Vec::new(), &Vec::new(), &p, &start), Some(None)));
}
