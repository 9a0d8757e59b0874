use vstd::prelude::*;
use crate::timestamp::Timestamp;

verus! {

/// A tracked organization; its name is its natural key.
#[derive(Debug)]
pub struct Org {
    pub id: i64,
    pub name: String,
}

/// A contributor, global across organizations; the username is the natural
/// key.
#[derive(Debug)]
pub struct Contributor {
    pub id: i64,
    pub username: String,
}

/// A repository of one organization; name and organization are its natural
/// key.
#[derive(Debug)]
pub struct Repo {
    pub id: i64,
    pub name: String,
    pub org: Org,
}

/// One collection run's lookback window and the repository rollups taken in
/// it.
#[derive(Debug)]
pub struct Scrape {
    pub id: i64,
    pub start_dt: Timestamp,
    pub end_dt: Timestamp,
    pub repo_scrapes: Vec<RepoScrape>,
}

/// The rollup of one repository within one snapshot.
#[derive(Debug)]
pub struct RepoScrape {
    pub id: i64,
    pub org: Org,
    pub repo: Repo,
    pub commits: i64,
    pub prs: i64,
    pub lines: i64,
    pub contributor_scrapes: Vec<ContributorScrapes>,
}

/// The rollup of one contributor within one repository rollup.
#[derive(Debug)]
pub struct ContributorScrapes {
    pub id: i64,
    pub contributor: Contributor,
    pub commits: i64,
    pub lines: i64,
}

} // verus!
