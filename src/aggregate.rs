use vstd::prelude::*;
use crate::activity::{
    CommitRecord, PullRequestRecord, author_name, pr_lines, merged_since, resolve_author,
    line_count, };
use crate::pattern::{IgnorePattern, pattern_finds};
use crate::timestamp::Timestamp;

verus! {

/// The counters of one contributor within one repository.
#[derive(Debug)]
pub struct ScrapeContributor {
    pub username: String,
    pub commits: u64,
    pub lines: u64,
}

/// A contributor's counters as plain values: username, commits, lines.
pub type Tally = (Seq<char>, int, int);

pub open spec fn tally_of(c: ScrapeContributor) -> Tally {
    (c.username@, c.commits as int, c.lines as int)
}

/// The tallies of a list of contributors, in order.
pub open spec fn tallies(v: Seq<ScrapeContributor>) -> Seq<Tally> {
    v.map_values(|c: ScrapeContributor| tally_of(c))
}

/// No username occurs twice.
pub open spec fn unique_names(m: Seq<Tally>) -> bool {
    forall|i: int, j: int| 0 <= i < j < m.len() ==> m[i].0 != m[j].0
}

pub open spec fn sum_commits(m: Seq<Tally>) -> int
    decreases m.len(),
{
    if m.len() == 0 {
        0
    } else {
        m[0].1 + sum_commits(m.drop_first())
    }
}

pub open spec fn sum_lines(m: Seq<Tally>) -> int
    decreases m.len(),
{
    if m.len() == 0 {
        0
    } else {
        m[0].2 + sum_lines(m.drop_first())
    }
}

/// Adds `commits` and `lines` to the contributor named `name`, who is
/// appended with those counts where absent.
pub open spec fn credit(m: Seq<Tally>, name: Seq<char>, commits: int, lines: int) -> Seq<Tally>
    decreases m.len(),
{
    if m.len() == 0 {
        seq![(name, commits, lines)]
    } else if m[0].0 == name {
        seq![(name, m[0].1 + commits, m[0].2 + lines)] + m.drop_first()
    } else {
        seq![m[0]] + credit(m.drop_first(), name, commits, lines)
    }
}

/// Every counter is non-negative.
pub open spec fn non_negative(m: Seq<Tally>) -> bool {
    forall|i: int| 0 <= i < m.len() ==> m[i].1 >= 0 && m[i].2 >= 0
}

pub proof fn lemma_credit_sums(m: Seq<Tally>, name: Seq<char>, commits: int, lines: int)
    ensures
        sum_commits(credit(m, name, commits, lines)) == sum_commits(m) + commits,
        sum_lines(credit(m, name, commits, lines)) == sum_lines(m) + lines,
    decreases m.len(),
{
    let c = credit(m, name, commits, lines);
    if m.len() == 0 {
        assert(c.drop_first() =~= Seq::<Tally>::empty());
        assert(sum_commits(c.drop_first()) == 0 && sum_lines(c.drop_first()) == 0);
        assert(sum_commits(m) == 0 && sum_lines(m) == 0);
    } else if m[0].0 == name {
        assert(c.drop_first() =~= m.drop_first());
    } else {
        lemma_credit_sums(m.drop_first(), name, commits, lines);
        assert(c.drop_first() =~= credit(m.drop_first(), name, commits, lines));
    }
}

pub proof fn lemma_credit_shape(m: Seq<Tally>, name: Seq<char>, commits: int, lines: int)
    requires
        unique_names(m),
        non_negative(m),
        commits >= 0,
        lines >= 0,
    ensures
        unique_names(credit(m, name, commits, lines)),
        non_negative(credit(m, name, commits, lines)),
        forall|i: int|
            0 <= i < credit(m, name, commits, lines).len() ==> (#[trigger] credit(
                m,
                name,
                commits,
                lines,
            )[i].0 == name || m.contains(credit(m, name, commits, lines)[i])),
    decreases m.len(),
{
    let c = credit(m, name, commits, lines);
    if m.len() == 0 {
    } else if m[0].0 == name {
        assert forall|i: int| 0 < i < c.len() implies m.contains(#[trigger] c[i]) by {
            assert(c[i] == m[i]);
        }
    } else {
        let rest = m.drop_first();
        lemma_credit_shape(rest, name, commits, lines);
        let cr = credit(rest, name, commits, lines);
        assert(c =~= seq![m[0]] + cr);
        assert forall|i: int| 0 < i < c.len() implies (#[trigger] c[i]).0 == name || m.contains(c[i]) by {
            assert(c[i] == cr[i - 1]);
            if cr[i - 1].0 != name {
                let k = choose|k: int| 0 <= k < rest.len() && rest[k] == cr[i - 1];
                assert(m[k + 1] == rest[k]);
            }
        }
        assert forall|i: int, j: int| 0 <= i < j < c.len() implies c[i].0 != c[j].0 by {
            if i == 0 {
                assert(c[j] == cr[j - 1]);
                if cr[j - 1].0 != name {
                    let k = choose|k: int| 0 <= k < rest.len() && rest[k] == cr[j - 1];
                    assert(m[k + 1] == rest[k]);
                }
            } else {
                assert(c[i] == cr[i - 1] && c[j] == cr[j - 1]);
            }
        }
    }
}

proof fn lemma_tally_bounded(m: Seq<Tally>, i: int)
    requires
        non_negative(m),
        0 <= i < m.len(),
    ensures
        m[i].1 <= sum_commits(m),
        m[i].2 <= sum_lines(m),
        sum_commits(m) >= 0,
        sum_lines(m) >= 0,
    decreases m.len(),
{
    lemma_sums_non_negative(m.drop_first());
    if i > 0 {
        lemma_tally_bounded(m.drop_first(), i - 1);
    }
}

proof fn lemma_sums_non_negative(m: Seq<Tally>)
    requires
        non_negative(m),
    ensures
        sum_commits(m) >= 0,
        sum_lines(m) >= 0,
    decreases m.len(),
{
    if m.len() > 0 {
        lemma_sums_non_negative(m.drop_first());
    }
}

/// `credit` leaves a prefix of contributors with other names alone.
proof fn lemma_credit_skip(m: Seq<Tally>, name: Seq<char>, commits: int, lines: int, i: int)
    requires
        0 <= i <= m.len(),
        forall|j: int| 0 <= j < i ==> m[j].0 != name,
    ensures
        credit(m, name, commits, lines) == m.subrange(0, i) + credit(m.subrange(i, m.len() as int), name, commits, lines),
    decreases i,
{
    if i > 0 {
        let rest = m.drop_first();
        lemma_credit_skip(rest, name, commits, lines, i - 1);
        assert(rest.subrange(0, i - 1) =~= m.subrange(1, i));
        assert(rest.subrange(i - 1, rest.len() as int) =~= m.subrange(i, m.len() as int));
        assert(m.subrange(0, i) =~= seq![m[0]] + m.subrange(1, i));
    } else {
        assert(m.subrange(0, 0) =~= Seq::<Tally>::empty());
        assert(m.subrange(0, m.len() as int) =~= m);
    }
}

/// Credits `commits` and `lines` to the contributor named `name` in `list`,
/// appending the contributor where absent.
pub fn credit_contributor(list: &mut Vec<ScrapeContributor>, name: String, commits: u64, lines: u64)
    requires
        non_negative(tallies(old(list)@)),
        sum_commits(tallies(old(list)@)) + commits <= u64::MAX,
        sum_lines(tallies(old(list)@)) + lines <= u64::MAX,
    ensures
        tallies(final(list)@) == credit(tallies(old(list)@), name@, commits as int, lines as int),
{
    let ghost m = tallies(list@);
    let mut i: usize = 0;
    while i < list.len() && list[i].username != name
        invariant
            i <= list.len(),
            list@ == old(list)@,
            m == tallies(list@),
            forall|j: int| 0 <= j < i ==> m[j].0 != name@,
        decreases list.len() - i,
    {
        i = i + 1;
    }
    proof {
        lemma_credit_skip(m, name@, commits as int, lines as int, i as int);
        assert(m.subrange(i as int, m.len() as int).len() == m.len() - i);
    }
    if i < list.len() {
        proof {
            lemma_tally_bounded(m, i as int);
            let rest = m.subrange(i as int, m.len() as int);
            assert(rest[0] == m[i as int]);
            assert(rest.drop_first() =~= m.subrange(i + 1, m.len() as int));
        }
        list[i].commits = list[i].commits + commits;
        list[i].lines = list[i].lines + lines;
        proof {
            assert(tallies(list@) =~= credit(m, name@, commits as int, lines as int));
        }
    } else {
        list.push(ScrapeContributor { username: name, commits, lines });
        proof {
            assert(m.subrange(0, i as int) =~= m);
            assert(tallies(list@) =~= credit(m, name@, commits as int, lines as int));
        }
    }
}

/// A commit counts unless its author matches the ignore pattern.
pub open spec fn is_accepted_commit(c: CommitRecord, pattern: Seq<char>) -> bool {
    !pattern_finds(pattern, author_name(c.author))
}

/// A pull request counts when it was merged at or after `since` and its
/// author does not match the ignore pattern.
pub open spec fn is_accepted_pr(pr: PullRequestRecord, pattern: Seq<char>, since: Timestamp) -> bool {
    merged_since(pr, since) && !pattern_finds(pattern, author_name(pr.author))
}

/// The number of commits of `cs` that count.
pub open spec fn accepted_commit_count(cs: Seq<CommitRecord>, pattern: Seq<char>) -> int
    decreases cs.len(),
{
    if cs.len() == 0 {
        0
    } else {
        accepted_commit_count(cs.drop_last(), pattern) + if is_accepted_commit(cs.last(), pattern) {
            1int
        } else {
            0int
        }
    }
}

/// The contributors' tallies after the commits of `cs` that count are
/// credited, in order, to `m`.
pub open spec fn commit_tallies(m: Seq<Tally>, cs: Seq<CommitRecord>, pattern: Seq<char>) -> Seq<Tally>
    decreases cs.len(),
{
    if cs.len() == 0 {
        m
    } else {
        let prev = commit_tallies(m, cs.drop_last(), pattern);
        if is_accepted_commit(cs.last(), pattern) {
            credit(prev, author_name(cs.last().author), 1, 0)
        } else {
            prev
        }
    }
}

/// The number of pull requests of `prs` that count.
pub open spec fn accepted_pr_count(prs: Seq<PullRequestRecord>, pattern: Seq<char>, since: Timestamp) -> int
    decreases prs.len(),
{
    if prs.len() == 0 {
        0
    } else {
        accepted_pr_count(prs.drop_last(), pattern, since) + if is_accepted_pr(prs.last(), pattern, since) {
            1int
        } else {
            0int
        }
    }
}

/// The lines of the pull requests of `prs` that count.
pub open spec fn accepted_pr_lines(prs: Seq<PullRequestRecord>, pattern: Seq<char>, since: Timestamp) -> int
    decreases prs.len(),
{
    if prs.len() == 0 {
        0
    } else {
        accepted_pr_lines(prs.drop_last(), pattern, since) + if is_accepted_pr(prs.last(), pattern, since) {
            pr_lines(prs.last())
        } else {
            0int
        }
    }
}

/// The contributors' tallies after the pull requests of `prs` that count
/// are credited, in order, to `m`.
pub open spec fn pr_tallies(
    m: Seq<Tally>,
    prs: Seq<PullRequestRecord>,
    pattern: Seq<char>,
    since: Timestamp,
) -> Seq<Tally>
    decreases prs.len(),
{
    if prs.len() == 0 {
        m
    } else {
        let prev = pr_tallies(m, prs.drop_last(), pattern, since);
        if is_accepted_pr(prs.last(), pattern, since) {
            credit(prev, author_name(prs.last().author), 0, pr_lines(prs.last()))
        } else {
            prev
        }
    }
}


proof fn lemma_commit_fold_split(m: Seq<Tally>, a: Seq<CommitRecord>, b: Seq<CommitRecord>, pattern: Seq<char>)
    ensures
        commit_tallies(m, a + b, pattern) == commit_tallies(commit_tallies(m, a, pattern), b, pattern),
        accepted_commit_count(a + b, pattern) == accepted_commit_count(a, pattern) + accepted_commit_count(b, pattern),
    decreases b.len(),
{
    if b.len() == 0 {
        assert(a + b =~= a);
    } else {
        lemma_commit_fold_split(m, a, b.drop_last(), pattern);
        assert((a + b).drop_last() =~= a + b.drop_last());
        assert((a + b).last() == b.last());
    }
}

proof fn lemma_pr_fold_split(
    m: Seq<Tally>,
    a: Seq<PullRequestRecord>,
    b: Seq<PullRequestRecord>,
    pattern: Seq<char>,
    since: Timestamp,
)
    ensures
        pr_tallies(m, a + b, pattern, since) == pr_tallies(pr_tallies(m, a, pattern, since), b, pattern, since),
        accepted_pr_count(a + b, pattern, since) == accepted_pr_count(a, pattern, since) + accepted_pr_count(
            b,
            pattern,
            since,
        ),
        accepted_pr_lines(a + b, pattern, since) == accepted_pr_lines(a, pattern, since) + accepted_pr_lines(
            b,
            pattern,
            since,
        ),
    decreases b.len(),
{
    if b.len() == 0 {
        assert(a + b =~= a);
    } else {
        lemma_pr_fold_split(m, a, b.drop_last(), pattern, since);
        assert((a + b).drop_last() =~= a + b.drop_last());
        assert((a + b).last() == b.last());
    }
}

/// A commit whose author matches the ignore pattern changes nothing,
/// wherever it stands among the commits fed in: neither the commit count
/// nor any contributor's tally.
pub proof fn lemma_ignored_commit_changes_nothing(
    m: Seq<Tally>,
    before: Seq<CommitRecord>,
    c: CommitRecord,
    after: Seq<CommitRecord>,
    pattern: Seq<char>,
)
    requires
        pattern_finds(pattern, author_name(c.author)),
    ensures
        commit_tallies(m, before + seq![c] + after, pattern) == commit_tallies(m, before + after, pattern),
        accepted_commit_count(before + seq![c] + after, pattern) == accepted_commit_count(before + after, pattern),
{
    let one = seq![c];
    lemma_commit_fold_split(m, before + one, after, pattern);
    lemma_commit_fold_split(m, before, one, pattern);
    lemma_commit_fold_split(m, before, after, pattern);
    assert(one.drop_last() =~= Seq::<CommitRecord>::empty());
    assert(one.last() == c);
    assert(accepted_commit_count(Seq::<CommitRecord>::empty(), pattern) == 0);
    assert(accepted_commit_count(one, pattern) == 0);
    assert(commit_tallies(commit_tallies(m, before, pattern), one, pattern) == commit_tallies(
        commit_tallies(m, before, pattern),
        Seq::<CommitRecord>::empty(),
        pattern,
    ));
}

/// A pull request that counts adds its lines and one pull request to the
/// repository, wherever it stands among the pull requests fed in, and one
/// that does not count (merged before the window, open, or by an ignored
/// author) changes neither.
pub proof fn lemma_pull_request_contribution(
    before: Seq<PullRequestRecord>,
    pr: PullRequestRecord,
    after: Seq<PullRequestRecord>,
    pattern: Seq<char>,
    since: Timestamp,
)
    ensures
        accepted_pr_lines(before + seq![pr] + after, pattern, since) == accepted_pr_lines(
            before + after,
            pattern,
            since,
        ) + if is_accepted_pr(pr, pattern, since) {
            pr_lines(pr)
        } else {
            0int
        },
        accepted_pr_count(before + seq![pr] + after, pattern, since) == accepted_pr_count(
            before + after,
            pattern,
            since,
        ) + if is_accepted_pr(pr, pattern, since) {
            1int
        } else {
            0int
        },
{
    let one = seq![pr];
    let m = Seq::<Tally>::empty();
    lemma_pr_fold_split(m, before + one, after, pattern, since);
    lemma_pr_fold_split(m, before, one, pattern, since);
    lemma_pr_fold_split(m, before, after, pattern, since);
    assert(one.drop_last() =~= Seq::<PullRequestRecord>::empty());
    assert(one.last() == pr);
    assert(accepted_pr_lines(Seq::<PullRequestRecord>::empty(), pattern, since) == 0);
    assert(accepted_pr_count(Seq::<PullRequestRecord>::empty(), pattern, since) == 0);
}

/// The contributors' tallies account for the repository's counters: their
/// commits add up to the commits that count, and their lines to the lines
/// of the pull requests that count.
pub proof fn lemma_tallies_add_up(
    commits: Seq<CommitRecord>,
    prs: Seq<PullRequestRecord>,
    pattern: Seq<char>,
    since: Timestamp,
)
    ensures
        sum_commits(pr_tallies(commit_tallies(Seq::empty(), commits, pattern), prs, pattern, since))
            == accepted_commit_count(commits, pattern),
        sum_lines(pr_tallies(commit_tallies(Seq::empty(), commits, pattern), prs, pattern, since))
            == accepted_pr_lines(prs, pattern, since),
{
    lemma_commit_sums(commits, pattern);
    lemma_pr_sums(commit_tallies(Seq::empty(), commits, pattern), prs, pattern, since);
}

proof fn lemma_commit_sums(cs: Seq<CommitRecord>, pattern: Seq<char>)
    ensures
        sum_commits(commit_tallies(Seq::empty(), cs, pattern)) == accepted_commit_count(cs, pattern),
        sum_lines(commit_tallies(Seq::empty(), cs, pattern)) == 0,
    decreases cs.len(),
{
    if cs.len() == 0 {
        assert(sum_commits(Seq::<Tally>::empty()) == 0);
        assert(sum_lines(Seq::<Tally>::empty()) == 0);
    } else {
        lemma_commit_sums(cs.drop_last(), pattern);
        let prev = commit_tallies(Seq::empty(), cs.drop_last(), pattern);
        lemma_credit_sums(prev, author_name(cs.last().author), 1, 0);
    }
}

proof fn lemma_pr_sums(m: Seq<Tally>, prs: Seq<PullRequestRecord>, pattern: Seq<char>, since: Timestamp)
    ensures
        sum_commits(pr_tallies(m, prs, pattern, since)) == sum_commits(m),
        sum_lines(pr_tallies(m, prs, pattern, since)) == sum_lines(m) + accepted_pr_lines(prs, pattern, since),
    decreases prs.len(),
{
    if prs.len() > 0 {
        lemma_pr_sums(m, prs.drop_last(), pattern, since);
        let prev = pr_tallies(m, prs.drop_last(), pattern, since);
        lemma_credit_sums(prev, author_name(prs.last().author), 0, pr_lines(prs.last()));
    }
}

/// The counters of one repository within one collection run.
pub struct TempRepoScrape {
    pub contributors: Vec<ScrapeContributor>,
    pub total_commits: u64,
    pub total_prs: u64,
    pub total_lines: u64,
}

impl TempRepoScrape {
    /// Usernames are unique, and the repository's commit and line counters
    /// are the sums of its contributors' counters.
    pub open spec fn wf(&self) -> bool {
        let t = tallies(self.contributors@);
        &&& unique_names(t)
        &&& non_negative(t)
        &&& sum_commits(t) == self.total_commits
        &&& sum_lines(t) == self.total_lines
    }

    /// Empty counters for one repository.
    pub fn new(_org_name: &str, _repo_name: &str) -> (r: Self)
        ensures
            r.wf(),
            r.contributors@.len() == 0,
            r.total_commits == 0,
            r.total_prs == 0,
            r.total_lines == 0,
    {
        let r = TempRepoScrape { contributors: Vec::new(), total_commits: 0, total_prs: 0, total_lines: 0 };
        proof {
            assert(tallies(r.contributors@) =~= Seq::<Tally>::empty());
        }
        r
    }

    /// Counts one commit for its author, unless the author matches
    /// `user_ignore`, in which case nothing changes.
    pub fn process_commit(&mut self, commit: &CommitRecord, user_ignore: &IgnorePattern)
        requires
            old(self).wf(),
            old(self).total_commits < u64::MAX,
        ensures
            final(self).wf(),
            !is_accepted_commit(*commit, user_ignore@) ==> *final(self) == *old(self),
            is_accepted_commit(*commit, user_ignore@) ==> {
                &&& final(self).total_commits == old(self).total_commits + 1
                &&& final(self).total_prs == old(self).total_prs
                &&& final(self).total_lines == old(self).total_lines
                &&& tallies(final(self).contributors@) == credit(
                    tallies(old(self).contributors@),
                    author_name(commit.author),
                    1,
                    0,
                )
            },
    {
        let commit_author = resolve_author(&commit.author);
        if user_ignore.is_ignored(commit_author.as_str()) {
            return;
        }
        self.tally_commit(commit_author);
    }

    /// Adds one pull request's lines to its author and to the repository,
    /// and counts it, unless the author matches `user_ignore`, in which case
    /// nothing changes.
    pub fn process_pr(&mut self, pr: &PullRequestRecord, user_ignore: &IgnorePattern)
        requires
            old(self).wf(),
            old(self).total_prs < u64::MAX,
            old(self).total_lines + pr_lines(*pr) <= u64::MAX,
        ensures
            final(self).wf(),
            pattern_finds(user_ignore@, author_name(pr.author)) ==> *final(self) == *old(self),
            !pattern_finds(user_ignore@, author_name(pr.author)) ==> {
                &&& final(self).total_commits == old(self).total_commits
                &&& final(self).total_prs == old(self).total_prs + 1
                &&& final(self).total_lines == old(self).total_lines + pr_lines(*pr)
                &&& tallies(final(self).contributors@) == credit(
                    tallies(old(self).contributors@),
                    author_name(pr.author),
                    0,
                    pr_lines(*pr),
                )
            },
    {
        let author = resolve_author(&pr.author);
        if user_ignore.is_ignored(author.as_str()) {
            return;
        }
        let lines = line_count(pr);
        self.tally_pr(author, lines);
    }

    /// Counts one accepted commit for `author`.
    pub fn tally_commit(&mut self, author: String)
        requires
            old(self).wf(),
            old(self).total_commits < u64::MAX,
        ensures
            final(self).wf(),
            final(self).total_commits == old(self).total_commits + 1,
            final(self).total_prs == old(self).total_prs,
            final(self).total_lines == old(self).total_lines,
            tallies(final(self).contributors@) == credit(tallies(old(self).contributors@), author@, 1, 0),
    {
        proof {
            let t = tallies(self.contributors@);
            lemma_credit_shape(t, author@, 1, 0);
            lemma_credit_sums(t, author@, 1, 0);
        }
        self.total_commits = self.total_commits + 1;
        credit_contributor(&mut self.contributors, author, 1, 0);
    }

    /// Counts one accepted pull request of `lines` changed lines for
    /// `author`.
    pub fn tally_pr(&mut self, author: String, lines: u64)
        requires
            old(self).wf(),
            old(self).total_prs < u64::MAX,
            old(self).total_lines + lines <= u64::MAX,
        ensures
            final(self).wf(),
            final(self).total_commits == old(self).total_commits,
            final(self).total_prs == old(self).total_prs + 1,
            final(self).total_lines == old(self).total_lines + lines,
            tallies(final(self).contributors@) == credit(
                tallies(old(self).contributors@),
                author@,
                0,
                lines as int,
            ),
    {
        proof {
            let t = tallies(self.contributors@);
            lemma_credit_shape(t, author@, 0, lines as int);
            lemma_credit_sums(t, author@, 0, lines as int);
        }
        credit_contributor(&mut self.contributors, author, 0, lines);
        self.total_prs = self.total_prs + 1;
        self.total_lines = self.total_lines + lines;
    }
}

} // verus!
