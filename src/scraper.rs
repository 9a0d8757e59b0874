use vstd::prelude::*;
use crate::activity::{CommitRecord, PullRequestRecord, pr_lines, pr_in_window, resolve_author, line_count};
use crate::aggregate::{
    TempRepoScrape, tallies, accepted_commit_count,
    commit_tallies, accepted_pr_count, accepted_pr_lines, pr_tallies, is_accepted_pr,
};
use crate::pattern::{IgnorePattern, PatternError, regex_compiles};
use crate::config::AppConfig;
use crate::timestamp::Timestamp;

verus! {

/// Repositories are listed in pages of this many; a shorter page is the
/// last one.
pub const REPOS_PER_PAGE: u8 = 50;

/// Whether a page of `count` repositories is the last one: it holds fewer
/// than a full page.
pub fn is_last_page(count: usize) -> (r: bool)
    ensures
        r == (count < REPOS_PER_PAGE),
{
    count < REPOS_PER_PAGE as usize
}

/// The lookback window of a run started at `now`: from `days` whole days
/// before `now` up to `now`; `None` where its start is out of range.
pub fn snapshot_window(now: Timestamp, days: usize) -> (r: Option<(Timestamp, Timestamp)>)
    ensures
        match r {
            Some((start, end)) => end == now && start.nanos == now.nanos && start.seconds == now.seconds
                - days * 86400,
            None => now.seconds - days * 86400 < i64::MIN,
        },
{
    match now.days_before(days as u64) {
        Some(start) => Some((start, now)),
        None => None,
    }
}

/// Compiles a configuration's organization and username ignore patterns,
/// so that a malformed one stops a run before any work.
pub fn ignore_patterns(cfg: &AppConfig) -> (r: Result<(IgnorePattern, IgnorePattern), PatternError>)
    ensures
        r is Ok <==> regex_compiles(cfg.ignored_org_pattern@) && regex_compiles(cfg.ignored_user_patterns@),
        r matches Ok((org, user)) ==> org@ == cfg.ignored_org_pattern@ && user@ == cfg.ignored_user_patterns@,
        r matches Err(e) ==> e.pattern@ == cfg.ignored_org_pattern@ || e.pattern@ == cfg.ignored_user_patterns@,
{
    let org = IgnorePattern::new(cfg.ignored_org_pattern.as_str())?;
    let user = IgnorePattern::new(cfg.ignored_user_patterns.as_str())?;
    Ok((org, user))
}

proof fn lemma_accepted_bounds(
    cs: Seq<CommitRecord>,
    prs: Seq<PullRequestRecord>,
    pattern: Seq<char>,
    since: Timestamp,
)
    ensures
        0 <= accepted_commit_count(cs, pattern) <= cs.len(),
        0 <= accepted_pr_count(prs, pattern, since) <= prs.len(),
        0 <= accepted_pr_lines(prs, pattern, since),
    decreases cs.len() + prs.len(),
{
    if cs.len() > 0 {
        lemma_accepted_bounds(cs.drop_last(), prs, pattern, since);
    }
    if prs.len() > 0 {
        lemma_accepted_bounds(cs, prs.drop_last(), pattern, since);
    }
}

/// Folds one repository's activity in the lookback window into counters.
///
/// A repository for which no commit was returned yields nothing, whatever
/// its pull requests. Otherwise every commit whose author does not match
/// `user_ignore` is counted, and every pull request merged at or after
/// `since` whose author does not match adds its lines and is counted.
pub fn aggregate_repository(
    commits: &Vec<CommitRecord>,
    prs: &Vec<PullRequestRecord>,
    user_ignore: &IgnorePattern,
    since: &Timestamp,
) -> (r: Option<TempRepoScrape>)
    requires
        accepted_pr_lines(prs@, user_ignore@, *since) <= u64::MAX,
    ensures
        r is None <==> commits@.len() == 0,
        r matches Some(a) ==> {
            &&& a.wf()
            &&& a.total_commits == accepted_commit_count(commits@, user_ignore@)
            &&& a.total_prs == accepted_pr_count(prs@, user_ignore@, *since)
            &&& a.total_lines == accepted_pr_lines(prs@, user_ignore@, *since)
            &&& tallies(a.contributors@) == pr_tallies(
                commit_tallies(Seq::empty(), commits@, user_ignore@),
                prs@,
                user_ignore@,
                *since,
            )
        },
{
    if commits.len() == 0 {
        return None;
    }
    let ghost pattern = user_ignore@;
    let mut agg = TempRepoScrape::new("", "");
    let mut i: usize = 0;
    while i < commits.len()
        invariant
            i <= commits@.len(),
            agg.wf(),
            agg.total_commits == accepted_commit_count(commits@.take(i as int), pattern),
            agg.total_commits <= i,
            agg.total_prs == 0,
            agg.total_lines == 0,
            tallies(agg.contributors@) == commit_tallies(Seq::empty(), commits@.take(i as int), pattern),
            pattern == user_ignore@,
        decreases commits@.len() - i,
    {
        proof {
            assert(commits@.take(i as int + 1).drop_last() =~= commits@.take(i as int));
            lemma_accepted_bounds(commits@.take(i as int), Seq::empty(), pattern, *since);
        }
        agg.process_commit(&commits[i], user_ignore);
        i = i + 1;
    }
    proof {
        assert(commits@.take(i as int) =~= commits@);
    }
    let ghost base = tallies(agg.contributors@);
    let mut j: usize = 0;
    while j < prs.len()
        invariant
            j <= prs@.len(),
            agg.wf(),
            agg.total_commits == accepted_commit_count(commits@, pattern),
            agg.total_prs == accepted_pr_count(prs@.take(j as int), pattern, *since),
            agg.total_lines == accepted_pr_lines(prs@.take(j as int), pattern, *since),
            tallies(agg.contributors@) == pr_tallies(base, prs@.take(j as int), pattern, *since),
            base == commit_tallies(Seq::empty(), commits@, pattern),
            pattern == user_ignore@,
            accepted_pr_lines(prs@, pattern, *since) <= u64::MAX,
        decreases prs@.len() - j,
    {
        proof {
            let pre = prs@.take(j as int);
            let next = prs@.take(j as int + 1);
            assert(next.drop_last() =~= pre);
            lemma_accepted_bounds(Seq::empty(), pre, pattern, *since);
            lemma_prefix_accepted_lines(prs@, j as int + 1, pattern, *since);
            lemma_accepted_bounds(Seq::empty(), next, pattern, *since);
        }
        let pr = &prs[j];
        if pr_in_window(pr, since) {
            let author = resolve_author(&pr.author);
            if !user_ignore.is_ignored(author.as_str()) {
                let lines = line_count(pr);
                agg.tally_pr(author, lines);
            }
        }
        j = j + 1;
    }
    proof {
        assert(prs@.take(j as int) =~= prs@);
    }
    Some(agg)
}

proof fn lemma_prefix_accepted_lines(prs: Seq<PullRequestRecord>, k: int, pattern: Seq<char>, since: Timestamp)
    requires
        0 <= k <= prs.len(),
    ensures
        accepted_pr_lines(prs.take(k), pattern, since) <= accepted_pr_lines(prs, pattern, since),
    decreases prs.len(),
{
    if k < prs.len() {
        lemma_prefix_accepted_lines(prs.drop_last(), k, pattern, since);
        assert(prs.drop_last().take(k) =~= prs.take(k));
    } else {
        assert(prs.take(k) =~= prs);
    }
}

/// Whether one pull request counts: merged at or after `since`, by an
/// author that `user_ignore` does not match.
pub fn pr_accepted(pr: &PullRequestRecord, user_ignore: &IgnorePattern, since: &Timestamp) -> (r: bool)
    ensures
        r == is_accepted_pr(*pr, user_ignore@, *since),
{
    if !pr_in_window(pr, since) {
        return false;
    }
    let author = resolve_author(&pr.author);
    !user_ignore.is_ignored(author.as_str())
}

/// The lines of the pull requests that count, or `None` where their sum
/// exceeds a `u64`.
pub fn accepted_lines(
    prs: &Vec<PullRequestRecord>,
    user_ignore: &IgnorePattern,
    since: &Timestamp,
) -> (r: Option<u64>)
    ensures
        r is None <==> accepted_pr_lines(prs@, user_ignore@, *since) > u64::MAX,
        r matches Some(n) ==> n == accepted_pr_lines(prs@, user_ignore@, *since),
{
    let mut total: u64 = 0;
    let mut j: usize = 0;
    proof {
        assert(prs@.take(0) =~= Seq::<PullRequestRecord>::empty());
    }
    while j < prs.len()
        invariant
            j <= prs@.len(),
            total == accepted_pr_lines(prs@.take(j as int), user_ignore@, *since),
        decreases prs@.len() - j,
    {
        let pr = &prs[j];
        proof {
            assert(prs@.take(j + 1).drop_last() =~= prs@.take(j as int));
            assert(prs@.take(j + 1).last() == prs@[j as int]);
        }
        if pr_accepted(pr, user_ignore, since) {
            let a: u128 = match pr.additions {
                Some(n) => n as u128,
                None => 0,
            };
            let d: u128 = match pr.deletions {
                Some(n) => n as u128,
                None => 0,
            };
            if total as u128 + a + d > u64::MAX as u128 {
                proof {
                    lemma_prefix_accepted_lines(prs@, j + 1, user_ignore@, *since);
                }
                return None;
            }
            total = (total as u128 + a + d) as u64;
        }
        j = j + 1;
    }
    proof {
        assert(prs@.take(j as int) =~= prs@);
    }
    Some(total)
}

/// Folds one repository's activity as `aggregate_repository` does, after
/// checking that the lines of the pull requests that count fit in a `u64`:
/// `None` where they do not, otherwise what `aggregate_repository` gives.
pub fn aggregate_repository_checked(
    commits: &Vec<CommitRecord>,
    prs: &Vec<PullRequestRecord>,
    user_ignore: &IgnorePattern,
    since: &Timestamp,
) -> (r: Option<Option<TempRepoScrape>>)
    ensures
        r is None <==> accepted_pr_lines(prs@, user_ignore@, *since) > u64::MAX,
        r matches Some(x) ==> {
            &&& (x is None <==> commits@.len() == 0)
            &&& x matches Some(a) ==> {
                &&& a.wf()
                &&& a.total_commits == accepted_commit_count(commits@, user_ignore@)
                &&& a.total_prs == accepted_pr_count(prs@, user_ignore@, *since)
                &&& a.total_lines == accepted_pr_lines(prs@, user_ignore@, *since)
                &&& tallies(a.contributors@) == pr_tallies(
                    commit_tallies(Seq::empty(), commits@, user_ignore@),
                    prs@,
                    user_ignore@,
                    *since,
                )
            }
        },
{
    match accepted_lines(prs, user_ignore, since) {
        None => None,
        Some(_) => Some(aggregate_repository(commits, prs, user_ignore, since)),
    }
}

} // verus!
