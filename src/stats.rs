use vstd::prelude::*;
use crate::timestamp::Timestamp;
use crate::sorting::{SortField, SortOrder, SortRow, RowKey, count_precedes, text_precedes};

verus! {

/// One organization's rollup within a snapshot.
#[derive(Debug)]
pub struct OrgStats {
    pub name: String,
    pub total_commits: i64,
    pub total_lines: i64,
    pub repo_count: i64,
    pub contributor_count: i64,
}

/// One repository's rollup within a snapshot.
#[derive(Debug)]
pub struct RepoStats {
    pub org_name: String,
    pub repo_name: String,
    pub commits: i64,
    pub lines: i64,
    pub prs: i64,
    pub contributor_count: i64,
}

/// One contributor's rollup within a snapshot.
#[derive(Debug)]
pub struct ContributorStats {
    pub username: String,
    pub total_commits: i64,
    pub total_lines: i64,
    pub repo_count: i64,
    pub orgs: Vec<String>,
}

/// A snapshot as the picker lists it.
#[derive(Debug)]
pub struct ScrapeInfo {
    pub id: i64,
    pub start_dt: Timestamp,
    pub end_dt: Timestamp,
    pub repo_count: i64,
}

/// An organization's repositories, for its detail view.
#[derive(Debug)]
pub struct OrgDetail {
    pub org_name: String,
    pub repos: Vec<RepoStats>,
}

/// A repository's contributors, for its detail view.
#[derive(Debug)]
pub struct RepoDetail {
    pub org_name: String,
    pub repo_name: String,
    pub contributors: Vec<RepoContributor>,
}

/// One contributor of a repository.
#[derive(Debug)]
pub struct RepoContributor {
    pub username: String,
    pub commits: i64,
    pub lines: i64,
    pub prs: i64,
}

/// A contributor's repositories, for its detail view.
#[derive(Debug)]
pub struct ContributorDetail {
    pub username: String,
    pub contributions: Vec<ContributorRepo>,
}

/// One repository a contributor worked on.
#[derive(Debug)]
pub struct ContributorRepo {
    pub org_name: String,
    pub repo_name: String,
    pub commits: i64,
    pub lines: i64,
    pub prs: i64,
}

/// What the dashboard shows: one case per kind of view.
#[derive(Debug)]
pub enum ViewData {
    Orgs(Vec<OrgStats>),
    Repos(Vec<RepoStats>),
    Contributors(Vec<ContributorStats>),
    OrgDetail(OrgDetail),
    RepoDetail(RepoDetail),
    ContributorDetail(ContributorDetail),
    Loading,
    Error(String),
}

/// The number of rows a view shows.
pub open spec fn row_count(d: ViewData) -> nat {
    match d {
        ViewData::Orgs(v) => v@.len(),
        ViewData::Repos(v) => v@.len(),
        ViewData::Contributors(v) => v@.len(),
        ViewData::OrgDetail(o) => o.repos@.len(),
        ViewData::RepoDetail(r) => r.contributors@.len(),
        ViewData::ContributorDetail(c) => c.contributions@.len(),
        ViewData::Loading => 0,
        ViewData::Error(_) => 0,
    }
}

impl SortRow for OrgStats {
    /// Organizations have no pull-request column: `Prs` orders by commits.
    open spec fn sort_key(&self, field: SortField) -> RowKey {
        match field {
            SortField::Name => RowKey::Text(self.name@),
            SortField::Commits => RowKey::Count(self.total_commits as int),
            SortField::Lines => RowKey::Count(self.total_lines as int),
            SortField::Repos => RowKey::Count(self.repo_count as int),
            SortField::Prs => RowKey::Count(self.total_commits as int),
        }
    }

    fn precedes(&self, other: &Self, field: SortField, order: SortOrder) -> (r: bool) {
        match field {
            SortField::Name => text_precedes(&self.name, &other.name, order),
            SortField::Commits => count_precedes(self.total_commits, other.total_commits, order),
            SortField::Lines => count_precedes(self.total_lines, other.total_lines, order),
            SortField::Repos => count_precedes(self.repo_count, other.repo_count, order),
            SortField::Prs => count_precedes(self.total_commits, other.total_commits, order),
        }
    }
}

impl SortRow for RepoStats {
    /// Repositories have no repository-count column: `Repos` orders by
    /// commits.
    open spec fn sort_key(&self, field: SortField) -> RowKey {
        match field {
            SortField::Name => RowKey::Text(self.repo_name@),
            SortField::Commits => RowKey::Count(self.commits as int),
            SortField::Lines => RowKey::Count(self.lines as int),
            SortField::Prs => RowKey::Count(self.prs as int),
            SortField::Repos => RowKey::Count(self.commits as int),
        }
    }

    fn precedes(&self, other: &Self, field: SortField, order: SortOrder) -> (r: bool) {
        match field {
            SortField::Name => text_precedes(&self.repo_name, &other.repo_name, order),
            SortField::Commits => count_precedes(self.commits, other.commits, order),
            SortField::Lines => count_precedes(self.lines, other.lines, order),
            SortField::Prs => count_precedes(self.prs, other.prs, order),
            SortField::Repos => count_precedes(self.commits, other.commits, order),
        }
    }
}

impl SortRow for ContributorStats {
    /// Contributors have no pull-request column: `Prs` orders by commits.
    open spec fn sort_key(&self, field: SortField) -> RowKey {
        match field {
            SortField::Name => RowKey::Text(self.username@),
            SortField::Commits => RowKey::Count(self.total_commits as int),
            SortField::Lines => RowKey::Count(self.total_lines as int),
            SortField::Repos => RowKey::Count(self.repo_count as int),
            SortField::Prs => RowKey::Count(self.total_commits as int),
        }
    }

    fn precedes(&self, other: &Self, field: SortField, order: SortOrder) -> (r: bool) {
        match field {
            SortField::Name => text_precedes(&self.username, &other.username, order),
            SortField::Commits => count_precedes(self.total_commits, other.total_commits, order),
            SortField::Lines => count_precedes(self.total_lines, other.total_lines, order),
            SortField::Repos => count_precedes(self.repo_count, other.repo_count, order),
            SortField::Prs => count_precedes(self.total_commits, other.total_commits, order),
        }
    }
}

impl SortRow for RepoContributor {
    /// A repository's contributors have no repository-count column: `Repos`
    /// orders by commits.
    open spec fn sort_key(&self, field: SortField) -> RowKey {
        match field {
            SortField::Name => RowKey::Text(self.username@),
            SortField::Commits => RowKey::Count(self.commits as int),
            SortField::Lines => RowKey::Count(self.lines as int),
            SortField::Prs => RowKey::Count(self.prs as int),
            SortField::Repos => RowKey::Count(self.commits as int),
        }
    }

    fn precedes(&self, other: &Self, field: SortField, order: SortOrder) -> (r: bool) {
        match field {
            SortField::Name => text_precedes(&self.username, &other.username, order),
            SortField::Commits => count_precedes(self.commits, other.commits, order),
            SortField::Lines => count_precedes(self.lines, other.lines, order),
            SortField::Prs => count_precedes(self.prs, other.prs, order),
            SortField::Repos => count_precedes(self.commits, other.commits, order),
        }
    }
}

impl SortRow for ContributorRepo {
    /// A contributor's repositories: `Repos` orders by repository name.
    open spec fn sort_key(&self, field: SortField) -> RowKey {
        match field {
            SortField::Name => RowKey::Text(self.repo_name@),
            SortField::Commits => RowKey::Count(self.commits as int),
            SortField::Lines => RowKey::Count(self.lines as int),
            SortField::Prs => RowKey::Count(self.prs as int),
            SortField::Repos => RowKey::Text(self.repo_name@),
        }
    }

    fn precedes(&self, other: &Self, field: SortField, order: SortOrder) -> (r: bool) {
        match field {
            SortField::Name => text_precedes(&self.repo_name, &other.repo_name, order),
            SortField::Commits => count_precedes(self.commits, other.commits, order),
            SortField::Lines => count_precedes(self.lines, other.lines, order),
            SortField::Prs => count_precedes(self.prs, other.prs, order),
            SortField::Repos => text_precedes(&self.repo_name, &other.repo_name, order),
        }
    }
}

} // verus!
