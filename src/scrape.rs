use vstd::prelude::*;
use crate::activity::{CommitRecord, PullRequestRecord, author_name, pr_lines, resolve_author, line_count};
use crate::aggregate::{
    ScrapeContributor, tallies, unique_names, non_negative, sum_commits, sum_lines, credit,
    credit_contributor, lemma_credit_shape, lemma_credit_sums,
};
use crate::pattern::{IgnorePattern, PatternError, pattern_finds, regex_compiles};

verus! {

impl ScrapeContributor {
    /// A contributor with no commits and no lines yet.
    pub fn new(user_name: &str) -> (r: Self)
        ensures
            r.username@ == user_name@,
            r.commits == 0,
            r.lines == 0,
    {
        ScrapeContributor { username: user_name.to_string(), commits: 0, lines: 0 }
    }
}

/// Counters of one repository that carry their own ignore pattern, compiled
/// anew for each record.
pub struct Scrape {
    pub org: String,
    pub repo: String,
    pub ignored_user_patterns: String,
    pub contributors: Vec<ScrapeContributor>,
    pub commits: u64,
    pub prs: u64,
    pub lines: u64,
}

impl Scrape {
    /// Usernames are unique, and the commit and line counters are the sums
    /// of the contributors' counters.
    pub open spec fn wf(&self) -> bool {
        let t = tallies(self.contributors@);
        &&& unique_names(t)
        &&& non_negative(t)
        &&& sum_commits(t) == self.commits
        &&& sum_lines(t) == self.lines
    }

    /// Counts one commit for its author unless the author matches the
    /// ignore pattern. A pattern that does not compile is reported and
    /// nothing changes.
    pub fn process_commit(&mut self, commit: &CommitRecord) -> (r: Result<(), PatternError>)
        requires
            old(self).wf(),
            old(self).commits < u64::MAX,
        ensures
            final(self).wf(),
            r is Err <==> !regex_compiles(old(self).ignored_user_patterns@),
            r matches Err(e) ==> *final(self) == *old(self) && e.pattern@ == old(self).ignored_user_patterns@,
            r is Ok && pattern_finds(old(self).ignored_user_patterns@, author_name(commit.author))
                ==> *final(self) == *old(self),
            r is Ok && !pattern_finds(old(self).ignored_user_patterns@, author_name(commit.author)) ==> {
                &&& final(self).commits == old(self).commits + 1
                &&& final(self).prs == old(self).prs
                &&& final(self).lines == old(self).lines
                &&& final(self).org == old(self).org
                &&& final(self).repo == old(self).repo
                &&& final(self).ignored_user_patterns == old(self).ignored_user_patterns
                &&& tallies(final(self).contributors@) == credit(
                    tallies(old(self).contributors@),
                    author_name(commit.author),
                    1,
                    0,
                )
            },
    {
        let commit_author = resolve_author(&commit.author);
        let user_ignore = match IgnorePattern::new(self.ignored_user_patterns.as_str()) {
            Ok(p) => p,
            Err(e) => return Err(e),
        };
        if user_ignore.is_ignored(commit_author.as_str()) {
            return Ok(());
        }
        proof {
            let t = tallies(self.contributors@);
            lemma_credit_shape(t, commit_author@, 1, 0);
            lemma_credit_sums(t, commit_author@, 1, 0);
        }
        self.commits = self.commits + 1;
        credit_contributor(&mut self.contributors, commit_author, 1, 0);
        Ok(())
    }

    /// Adds one pull request's lines to its author and to the repository,
    /// and counts it, unless the author matches the ignore pattern. A
    /// pattern that does not compile is reported and nothing changes.
    pub fn process_pr(&mut self, pr: &PullRequestRecord) -> (r: Result<(), PatternError>)
        requires
            old(self).wf(),
            old(self).prs < u64::MAX,
            old(self).lines + pr_lines(*pr) <= u64::MAX,
        ensures
            final(self).wf(),
            r is Err <==> !regex_compiles(old(self).ignored_user_patterns@),
            r matches Err(e) ==> *final(self) == *old(self) && e.pattern@ == old(self).ignored_user_patterns@,
            r is Ok && pattern_finds(old(self).ignored_user_patterns@, author_name(pr.author))
                ==> *final(self) == *old(self),
            r is Ok && !pattern_finds(old(self).ignored_user_patterns@, author_name(pr.author)) ==> {
                &&& final(self).commits == old(self).commits
                &&& final(self).prs == old(self).prs + 1
                &&& final(self).lines == old(self).lines + pr_lines(*pr)
                &&& final(self).org == old(self).org
                &&& final(self).repo == old(self).repo
                &&& final(self).ignored_user_patterns == old(self).ignored_user_patterns
                &&& tallies(final(self).contributors@) == credit(
                    tallies(old(self).contributors@),
                    author_name(pr.author),
                    0,
                    pr_lines(*pr),
                )
            },
    {
        let author = resolve_author(&pr.author);
        let user_ignore = match IgnorePattern::new(self.ignored_user_patterns.as_str()) {
            Ok(p) => p,
            Err(e) => return Err(e),
        };
        if user_ignore.is_ignored(author.as_str()) {
            return Ok(());
        }
        let lines = line_count(pr);
        proof {
            let t = tallies(self.contributors@);
            lemma_credit_shape(t, author@, 0, lines as int);
            lemma_credit_sums(t, author@, 0, lines as int);
        }
        credit_contributor(&mut self.contributors, author, 0, lines);
        self.prs = self.prs + 1;
        self.lines = self.lines + lines;
        Ok(())
    }
}

} // verus!
