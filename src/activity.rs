use vstd::prelude::*;
use crate::timestamp::{Timestamp, at_or_before};

verus! {

/// One commit as the activity source reports it: only its author matters
/// here.
pub struct CommitRecord {
    pub author: Option<String>,
}

/// One pull request as the activity source reports it.
pub struct PullRequestRecord {
    pub author: Option<String>,
    pub merged_at: Option<Timestamp>,
    pub additions: Option<u64>,
    pub deletions: Option<u64>,
}

/// The username credited for a record: its author, or the literal
/// `anonymous` where the record names none.
pub open spec fn author_name(author: Option<String>) -> Seq<char> {
    match author {
        Some(s) => s@,
        None => "anonymous"@,
    }
}

/// The lines a pull request changed: additions plus deletions, a missing
/// figure counting as zero.
pub open spec fn pr_lines(pr: PullRequestRecord) -> int {
    let a: int = match pr.additions {
        Some(n) => n as int,
        None => 0,
    };
    let d: int = match pr.deletions {
        Some(n) => n as int,
        None => 0,
    };
    a + d
}

/// The pull request was merged, at or after `since`.
pub open spec fn merged_since(pr: PullRequestRecord, since: Timestamp) -> bool {
    match pr.merged_at {
        Some(t) => at_or_before(since, t),
        None => false,
    }
}

/// Resolves the username credited for a record.
pub fn resolve_author(author: &Option<String>) -> (r: String)
    ensures
        r@ == author_name(*author),
{
    match author {
        Some(name) => name.clone(),
        None => "anonymous".to_string(),
    }
}

/// The lines a pull request changed.
pub fn line_count(pr: &PullRequestRecord) -> (r: u64)
    requires
        pr_lines(*pr) <= u64::MAX,
    ensures
        r == pr_lines(*pr),
{
    let a: u64 = match pr.additions {
        Some(n) => n,
        None => 0,
    };
    let d: u64 = match pr.deletions {
        Some(n) => n,
        None => 0,
    };
    a + d
}

/// Whether a pull request was merged at or after `since`; an open pull
/// request never is.
pub fn pr_in_window(pr: &PullRequestRecord, since: &Timestamp) -> (r: bool)
    ensures
        r == merged_since(*pr, *since),
{
    match &pr.merged_at {
        Some(t) => !t.is_before(since),
        None => false,
    }
}

} // verus!
