use org_pulse::db::{Contributor, ContributorScrapes, Org, Repo, RepoScrape, Scrape};
use org_pulse::query::{get_contributor_detail, get_contributor_stats, get_org_detail, get_org_stats, get_repo_detail, get_repo_stats};
use org_pulse::timestamp::Timestamp;

fn org(id: i64, name: &str) -> Org {
    Org { id, name: name.to_string() }
}

fn cs(id: i64, user_id: i64, user: &str, commits: i64, lines: i64) -> ContributorScrapes {
    ContributorScrapes { id, contributor: Contributor { id: user_id, username: user.to_string() }, commits, lines }
}

fn rs(id: i64, org_id: i64, org_name: &str, repo_id: i64, repo_name: &str, commits: i64, prs: i64, lines: i64, contributors: Vec<ContributorScrapes>) -> RepoScrape {
    RepoScrape {
        id,
        org: org(org_id, org_name),
        repo: Repo { id: repo_id, name: repo_name.to_string(), org: org(org_id, org_name) },
        commits,
        prs,
        lines,
        contributor_scrapes: contributors,
    }
}

fn snapshot() -> Scrape {
    Scrape {
        id: 1,
        start_dt: Timestamp { seconds: 0, nanos: 0 },
        end_dt: Timestamp { seconds: 604_800, nanos: 0 },
        repo_scrapes: vec![
            rs(1, 10, "acme", 100, "widgets", 5, 2, 40, vec![cs(1, 7, "alice", 3, 30), cs(2, 8, "bob", 2, 10)]),
            rs(2, 20, "zeta", 200, "engine", 4, 1, 9, vec![cs(3, 7, "alice", 4, 9)]),
            rs(3, 10, "acme", 101, "gadgets", 1, 0, 0, vec![cs(4, 8, "bob", 1, 0)]),
        ],
    }
}

#[test]
fn organization_rollup_sums_and_counts() {
    let rows = get_org_stats(&snapshot()).unwrap();
    assert_eq!(rows.len(), 2);
    assert_eq!(rows[0].name, "acme");
    assert_eq!(rows[0].total_commits, 6);
    assert_eq!(rows[0].total_lines, 40);
    assert_eq!(rows[0].repo_count, 2);
    assert_eq!(rows[0].contributor_count, 2);
    assert_eq!(rows[1].name, "zeta");
    assert_eq!(rows[1].total_commits, 4);
    assert_eq!(rows[1].repo_count, 1);
    assert_eq!(rows[1].contributor_count, 1);
}

#[test]
fn organization_rollup_overflow_is_reported() {
    let mut s = snapshot();
    s.repo_scrapes[2].commits = i64::MAX;
    assert!(get_org_stats(&s).is_none());
}

#[test]
fn repository_rollup_keeps_own_counters() {
    let rows = get_repo_stats(&snapshot()).unwrap();
    assert_eq!(rows.len(), 3);
    assert_eq!(rows[0].org_name, "acme");
    assert_eq!(rows[0].repo_name, "widgets");
    assert_eq!(rows[0].commits, 5);
    assert_eq!(rows[0].prs, 2);
    assert_eq!(rows[0].lines, 40);
    assert_eq!(rows[0].contributor_count, 2);
    assert_eq!(rows[2].repo_name, "gadgets");
    assert_eq!(rows[2].contributor_count, 1);
}

#[test]
fn contributor_rollup_spans_repositories() {
    let rows = get_contributor_stats(&snapshot()).unwrap();
    assert_eq!(rows.len(), 2);
    assert_eq!(rows[0].username, "alice");
    assert_eq!(rows[0].total_commits, 7);
    assert_eq!(rows[0].total_lines, 39);
    assert_eq!(rows[0].repo_count, 2);
    assert_eq!(rows[0].orgs, vec!["acme".to_string(), "zeta".to_string()]);
    assert_eq!(rows[1].username, "bob");
    assert_eq!(rows[1].total_commits, 3);
    assert_eq!(rows[1].repo_count, 2);
    assert_eq!(rows[1].orgs, vec!["acme".to_string()]);
}

#[test]
fn contributor_rollup_sums_stored_counts_as_they_are() {
    let mut s = snapshot();
    s.repo_scrapes[0].contributor_scrapes[0].commits = -1;
    let rows = get_contributor_stats(&s).unwrap();
    assert_eq!(rows[0].username, "alice");
    assert_eq!(rows[0].total_commits, 3);
    assert_eq!(rows[1].username, "bob");
    assert_eq!(rows[1].total_commits, 3);
}

#[test]
fn contributor_rollup_overflow_is_reported() {
    let mut s = snapshot();
    s.repo_scrapes[0].contributor_scrapes[0].lines = i64::MAX;
    assert!(get_contributor_stats(&s).is_none());
}

#[test]
fn rollups_come_sorted_by_commits_descending() {
    let mut s = snapshot();
    s.repo_scrapes[2].commits = 50;
    s.repo_scrapes[2].contributor_scrapes[0].commits = 40;
    let orgs = get_org_stats(&s).unwrap();
    assert_eq!(orgs[0].name, "acme");
    assert_eq!(orgs[0].total_commits, 55);
    let repos = get_repo_stats(&s).unwrap();
    let names: Vec<&str> = repos.iter().map(|r| r.repo_name.as_str()).collect();
    assert_eq!(names, vec!["gadgets", "widgets", "engine"]);
    let contributors = get_contributor_stats(&s).unwrap();
    assert_eq!(contributors[0].username, "bob");
    assert_eq!(contributors[0].total_commits, 42);
    let detail = get_org_detail(&s, "acme").unwrap();
    assert_eq!(detail.repos[0].repo_name, "gadgets");
    let bob = get_contributor_detail(&s, "bob");
    assert_eq!(bob.contributions[0].repo_name, "gadgets");
    assert_eq!(bob.contributions[0].commits, 40);
}

#[test]
fn repository_detail_sorted_by_commits() {
    let mut s = snapshot();
    s.repo_scrapes[0].contributor_scrapes[1].commits = 9;
    let d = get_repo_detail(&s, "acme", "widgets");
    assert_eq!(d.contributors[0].username, "bob");
    assert_eq!(d.contributors[1].username, "alice");
}

#[test]
fn zeta_first_when_it_has_most_commits() {
    let mut s = snapshot();
    s.repo_scrapes[1].commits = 100;
    let orgs = get_org_stats(&s).unwrap();
    assert_eq!(orgs[0].name, "zeta");
    assert_eq!(orgs[1].name, "acme");
}

#[test]
fn empty_snapshot_has_no_rows() {
    let s = Scrape {
        id: 2,
        start_dt: Timestamp { seconds: 0, nanos: 0 },
        end_dt: Timestamp { seconds: 1, nanos: 0 },
        repo_scrapes: Vec::new(),
    };
    assert!(get_org_stats(&s).unwrap().is_empty());
    assert!(get_repo_stats(&s).unwrap().is_empty());
    assert!(get_contributor_stats(&s).unwrap().is_empty());
}

#[test]
fn organization_detail_lists_its_repositories() {
    let d = get_org_detail(&snapshot(), "acme").unwrap();
    assert_eq!(d.org_name, "acme");
    assert_eq!(d.repos.len(), 2);
    assert_eq!(d.repos[0].repo_name, "widgets");
    assert_eq!(d.repos[1].repo_name, "gadgets");
    assert!(get_org_detail(&snapshot(), "nobody").unwrap().repos.is_empty());
}

#[test]
fn repository_detail_reports_no_pull_requests_per_contributor() {
    let d = get_repo_detail(&snapshot(), "acme", "widgets");
    assert_eq!(d.repo_name, "widgets");
    assert_eq!(d.contributors.len(), 2);
    assert_eq!(d.contributors[0].username, "alice");
    assert_eq!(d.contributors[0].commits, 3);
    assert_eq!(d.contributors[0].lines, 30);
    assert_eq!(d.contributors[0].prs, 0);
    assert!(get_repo_detail(&snapshot(), "zeta", "widgets").contributors.is_empty());
}

#[test]
fn contributor_detail_lists_repositories() {
    let d = get_contributor_detail(&snapshot(), "bob");
    assert_eq!(d.username, "bob");
    assert_eq!(d.contributions.len(), 2);
    assert_eq!(d.contributions[0].org_name, "acme");
    assert_eq!(d.contributions[0].repo_name, "widgets");
    assert_eq!(d.contributions[0].commits, 2);
    assert_eq!(d.contributions[1].repo_name, "gadgets");
    assert_eq!(d.contributions[1].prs, 0);
}
