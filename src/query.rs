use vstd::prelude::*;
use crate::db::{Scrape, RepoScrape, ContributorScrapes};
use crate::sorting::{SortField, SortOrder, sort_rows, sort_rows_by, text_equal, text_less, text_lt, lemma_text_lt_transitive, lemma_text_lt_total};
use crate::stats::{
    OrgStats, RepoStats, ContributorStats, OrgDetail, RepoDetail, RepoContributor, ContributorDetail,
    ContributorRepo,
};

verus! {

/// The ids of the contributors of one repository rollup.
pub open spec fn contributor_ids(cs: Seq<ContributorScrapes>) -> Set<i64> {
    cs.map_values(|c: ContributorScrapes| c.contributor.id).to_set()
}

/// A repository rollup as a row: its own counters and the number of
/// distinct contributors.
pub open spec fn repo_row(r: RepoScrape) -> RepoStats {
    RepoStats {
        org_name: r.org.name,
        repo_name: r.repo.name,
        commits: r.commits,
        lines: r.lines,
        prs: r.prs,
        contributor_count: contributor_ids(r.contributor_scrapes@).len() as i64,
    }
}

/// The number of distinct contributors of a repository rollup fits in an
/// `i64`.
pub open spec fn repo_row_fits(r: RepoScrape) -> bool {
    contributor_ids(r.contributor_scrapes@).len() <= i64::MAX
}

/// Adds `x` to a list of distinct ids.
fn add_distinct(seen: &mut Vec<i64>, x: i64)
    requires
        old(seen)@.no_duplicates(),
    ensures
        final(seen)@.no_duplicates(),
        final(seen)@.to_set() == old(seen)@.to_set().insert(x),
        final(seen)@.len() <= old(seen)@.len() + 1,
{
    let mut k: usize = 0;
    while k < seen.len() && seen[k] != x
        invariant
            k <= seen@.len(),
            forall|j: int| 0 <= j < k ==> seen@[j] != x,
        decreases seen@.len() - k,
    {
        k = k + 1;
    }
    if k == seen.len() {
        let ghost before = seen@;
        seen.push(x);
        proof {
            assert(seen@.to_set() =~= before.to_set().insert(x)) by {
                assert forall|y: i64| seen@.to_set().contains(y) == before.to_set().insert(x).contains(y) by {
                    if y != x && seen@.contains(y) {
                        let j = choose|j: int| 0 <= j < seen@.len() && seen@[j] == y;
                        assert(before[j] == y);
                    }
                    if before.contains(y) {
                        let j = choose|j: int| 0 <= j < before.len() && before[j] == y;
                        assert(seen@[j] == y);
                    }
                    if y == x {
                        assert(seen@[before.len() as int] == x);
                    }
                }
            }
        }
    } else {
        proof {
            assert(seen@.to_set() =~= seen@.to_set().insert(x)) by {
                assert(seen@[k as int] == x);
            }
        }
    }
}

/// The number of distinct contributors of one repository rollup.
fn distinct_contributor_count(cs: &Vec<ContributorScrapes>) -> (n: usize)
    ensures
        n == contributor_ids(cs@).len(),
        n <= cs@.len(),
{
    let mut seen: Vec<i64> = Vec::new();
    let mut i: usize = 0;
    proof {
        assert(cs@.take(0).map_values(|c: ContributorScrapes| c.contributor.id).to_set() =~= Set::<i64>::empty());
        assert(seen@.to_set() =~= Set::<i64>::empty());
    }
    while i < cs.len()
        invariant
            i <= cs@.len(),
            seen@.no_duplicates(),
            seen@.len() <= i,
            seen@.to_set() == contributor_ids(cs@.take(i as int)),
        decreases cs@.len() - i,
    {
        add_distinct(&mut seen, cs[i].contributor.id);
        proof {
            let f = |c: ContributorScrapes| c.contributor.id;
            assert(cs@.take(i + 1).map_values(f) =~= cs@.take(i as int).map_values(f) + seq![cs@[i as int].contributor.id]);
            Seq::lemma_to_set_insert_commutes(cs@.take(i as int).map_values(f), cs@[i as int].contributor.id);
        }
        i = i + 1;
    }
    proof {
        assert(cs@.take(i as int) =~= cs@);
        seen@.unique_seq_to_set();
    }
    seen.len()
}

fn repo_stats_row(r: &RepoScrape) -> (row: Option<RepoStats>)
    ensures
        row is None <==> !repo_row_fits(*r),
        row matches Some(x) ==> x == repo_row(*r),
{
    let n = distinct_contributor_count(&r.contributor_scrapes);
    if n as u64 > i64::MAX as u64 {
        return None;
    }
    Some(RepoStats {
        org_name: r.org.name.clone(),
        repo_name: r.repo.name.clone(),
        commits: r.commits,
        lines: r.lines,
        prs: r.prs,
        contributor_count: n as i64,
    })
}

/// The repository rollup of a snapshot: one row per repository rollup,
/// sorted by commits, descending (stably, so equal commits keep the
/// snapshot's order). `None` where a figure does not fit in an `i64`.
pub fn get_repo_stats(scrape: &Scrape) -> (rows: Option<Vec<RepoStats>>)
    ensures
        rows is None <==> exists|i: int|
            0 <= i < scrape.repo_scrapes@.len() && !repo_row_fits(#[trigger] scrape.repo_scrapes@[i]),
        rows matches Some(v) ==> v@ == sort_rows(
            scrape.repo_scrapes@.map_values(|r: RepoScrape| repo_row(r)),
            SortField::Commits,
            SortOrder::Descending,
        ),
{
    let rs = &scrape.repo_scrapes;
    let mut rows: Vec<RepoStats> = Vec::new();
    let mut i: usize = 0;
    while i < rs.len()
        invariant
            i <= rs@.len(),
            rs@ == scrape.repo_scrapes@,
            forall|j: int| 0 <= j < i ==> repo_row_fits(#[trigger] rs@[j]),
            rows@ == rs@.take(i as int).map_values(|r: RepoScrape| repo_row(r)),
        decreases rs@.len() - i,
    {
        match repo_stats_row(&rs[i]) {
            Some(row) => rows.push(row),
            None => return None,
        }
        proof {
            assert(rs@.take(i + 1).map_values(|r: RepoScrape| repo_row(r)) =~= rs@.take(i as int).map_values(
                |r: RepoScrape| repo_row(r),
            ).push(repo_row(rs@[i as int])));
        }
        i = i + 1;
    }
    proof {
        assert(rs@.take(i as int) =~= rs@);
    }
    sort_rows_by(&mut rows, SortField::Commits, SortOrder::Descending);
    Some(rows)
}

/// The rows of the organization named `org`'s detail view: its repository
/// rollups, in the snapshot's order.
pub open spec fn org_detail_rows(rs: Seq<RepoScrape>, org: Seq<char>) -> Seq<RepoStats>
    decreases rs.len(),
{
    if rs.len() == 0 {
        Seq::empty()
    } else {
        let prev = org_detail_rows(rs.drop_last(), org);
        if rs.last().org.name@ == org {
            prev.push(repo_row(rs.last()))
        } else {
            prev
        }
    }
}

/// The detail of the organization named `org_name` in a snapshot, its
/// repositories sorted by commits, descending (stably). `None` where a
/// figure does not fit in an `i64`.
pub fn get_org_detail(scrape: &Scrape, org_name: &str) -> (d: Option<OrgDetail>)
    ensures
        d is None <==> exists|i: int|
            0 <= i < scrape.repo_scrapes@.len() && (#[trigger] scrape.repo_scrapes@[i]).org.name@ == org_name@
                && !repo_row_fits(scrape.repo_scrapes@[i]),
        d matches Some(x) ==> x.org_name@ == org_name@ && x.repos@ == sort_rows(
            org_detail_rows(scrape.repo_scrapes@, org_name@),
            SortField::Commits,
            SortOrder::Descending,
        ),
{
    let rs = &scrape.repo_scrapes;
    let mut repos: Vec<RepoStats> = Vec::new();
    let mut i: usize = 0;
    while i < rs.len()
        invariant
            i <= rs@.len(),
            rs@ == scrape.repo_scrapes@,
            forall|j: int| 0 <= j < i && (#[trigger] rs@[j]).org.name@ == org_name@ ==> repo_row_fits(rs@[j]),
            repos@ == org_detail_rows(rs@.take(i as int), org_name@),
        decreases rs@.len() - i,
    {
        let r = &rs[i];
        proof {
            assert(rs@.take(i + 1).drop_last() =~= rs@.take(i as int));
            assert(rs@.take(i + 1).last() == rs@[i as int]);
        }
        if text_equal(r.org.name.as_str(), org_name) {
            match repo_stats_row(r) {
                Some(row) => repos.push(row),
                None => return None,
            }
        }
        i = i + 1;
    }
    proof {
        assert(rs@.take(i as int) =~= rs@);
    }
    sort_rows_by(&mut repos, SortField::Commits, SortOrder::Descending);
    Some(OrgDetail { org_name: org_name.to_string(), repos })
}

/// One contributor of a repository rollup, as a row of the repository's
/// detail view: pull requests are not counted per contributor.
pub open spec fn repo_contributor_row(c: ContributorScrapes) -> RepoContributor {
    RepoContributor { username: c.contributor.username, commits: c.commits, lines: c.lines, prs: 0 }
}

/// The rows of the detail view of repository `repo` of organization `org`:
/// the contributors of its rollups, in the snapshot's order.
pub open spec fn repo_detail_rows(rs: Seq<RepoScrape>, org: Seq<char>, repo: Seq<char>) -> Seq<RepoContributor>
    decreases rs.len(),
{
    if rs.len() == 0 {
        Seq::empty()
    } else {
        let prev = repo_detail_rows(rs.drop_last(), org, repo);
        let r = rs.last();
        if r.org.name@ == org && r.repo.name@ == repo {
            prev + r.contributor_scrapes@.map_values(|c: ContributorScrapes| repo_contributor_row(c))
        } else {
            prev
        }
    }
}

/// The detail of repository `repo_name` of organization `org_name` in a
/// snapshot, its contributors sorted by commits, descending (stably).
pub fn get_repo_detail(scrape: &Scrape, org_name: &str, repo_name: &str) -> (d: RepoDetail)
    ensures
        d.org_name@ == org_name@,
        d.repo_name@ == repo_name@,
        d.contributors@ == sort_rows(
            repo_detail_rows(scrape.repo_scrapes@, org_name@, repo_name@),
            SortField::Commits,
            SortOrder::Descending,
        ),
{
    let rs = &scrape.repo_scrapes;
    let mut contributors: Vec<RepoContributor> = Vec::new();
    let mut i: usize = 0;
    while i < rs.len()
        invariant
            i <= rs@.len(),
            contributors@ == repo_detail_rows(rs@.take(i as int), org_name@, repo_name@),
        decreases rs@.len() - i,
    {
        let r = &rs[i];
        proof {
            assert(rs@.take(i + 1).drop_last() =~= rs@.take(i as int));
            assert(rs@.take(i + 1).last() == rs@[i as int]);
        }
        if text_equal(r.org.name.as_str(), org_name) && text_equal(r.repo.name.as_str(), repo_name) {
            let cs = &r.contributor_scrapes;
            let ghost prev = contributors@;
            let mut j: usize = 0;
            while j < cs.len()
                invariant
                    j <= cs@.len(),
                    contributors@ == prev + cs@.take(j as int).map_values(
                        |c: ContributorScrapes| repo_contributor_row(c),
                    ),
                decreases cs@.len() - j,
            {
                let c = &cs[j];
                contributors.push(
                    RepoContributor {
                        username: c.contributor.username.clone(),
                        commits: c.commits,
                        lines: c.lines,
                        prs: 0,
                    },
                );
                proof {
                    assert(cs@.take(j + 1).map_values(|c: ContributorScrapes| repo_contributor_row(c))
                        =~= cs@.take(j as int).map_values(|c: ContributorScrapes| repo_contributor_row(c)).push(
                        repo_contributor_row(cs@[j as int]),
                    ));
                }
                j = j + 1;
            }
            proof {
                assert(cs@.take(j as int) =~= cs@);
            }
        }
        i = i + 1;
    }
    proof {
        assert(rs@.take(i as int) =~= rs@);
    }
    sort_rows_by(&mut contributors, SortField::Commits, SortOrder::Descending);
    RepoDetail { org_name: org_name.to_string(), repo_name: repo_name.to_string(), contributors }
}

/// The rows of `user`'s detail view contributed by the contributor
/// rollups `cs` of repository rollup `r`.
pub open spec fn contributions_in(r: RepoScrape, cs: Seq<ContributorScrapes>, user: Seq<char>) -> Seq<ContributorRepo>
    decreases cs.len(),
{
    if cs.len() == 0 {
        Seq::empty()
    } else {
        let prev = contributions_in(r, cs.drop_last(), user);
        let c = cs.last();
        if c.contributor.username@ == user {
            prev.push(
                ContributorRepo {
                    org_name: r.org.name,
                    repo_name: r.repo.name,
                    commits: c.commits,
                    lines: c.lines,
                    prs: 0,
                },
            )
        } else {
            prev
        }
    }
}

/// The rows of the detail view of contributor `user`: one per repository
/// rollup they appear in, in the snapshot's order; pull requests are not
/// counted per contributor.
pub open spec fn contributor_detail_rows(rs: Seq<RepoScrape>, user: Seq<char>) -> Seq<ContributorRepo>
    decreases rs.len(),
{
    if rs.len() == 0 {
        Seq::empty()
    } else {
        contributor_detail_rows(rs.drop_last(), user) + contributions_in(
            rs.last(),
            rs.last().contributor_scrapes@,
            user,
        )
    }
}

/// The detail of contributor `username` in a snapshot, their repositories
/// sorted by commits, descending (stably).
pub fn get_contributor_detail(scrape: &Scrape, username: &str) -> (d: ContributorDetail)
    ensures
        d.username@ == username@,
        d.contributions@ == sort_rows(
            contributor_detail_rows(scrape.repo_scrapes@, username@),
            SortField::Commits,
            SortOrder::Descending,
        ),
{
    let rs = &scrape.repo_scrapes;
    let mut contributions: Vec<ContributorRepo> = Vec::new();
    let mut i: usize = 0;
    while i < rs.len()
        invariant
            i <= rs@.len(),
            contributions@ == contributor_detail_rows(rs@.take(i as int), username@),
        decreases rs@.len() - i,
    {
        let r = &rs[i];
        proof {
            assert(rs@.take(i + 1).drop_last() =~= rs@.take(i as int));
            assert(rs@.take(i + 1).last() == rs@[i as int]);
        }
        let cs = &r.contributor_scrapes;
        let ghost prev = contributions@;
        let mut j: usize = 0;
        proof {
            assert(prev + contributions_in(*r, cs@.take(0), username@) =~= prev);
        }
        while j < cs.len()
            invariant
                j <= cs@.len(),
                contributions@ == prev + contributions_in(*r, cs@.take(j as int), username@),
            decreases cs@.len() - j,
        {
            let c = &cs[j];
            proof {
                assert(cs@.take(j + 1).drop_last() =~= cs@.take(j as int));
                assert(cs@.take(j + 1).last() == cs@[j as int]);
            }
            if text_equal(c.contributor.username.as_str(), username) {
                contributions.push(
                    ContributorRepo {
                        org_name: r.org.name.clone(),
                        repo_name: r.repo.name.clone(),
                        commits: c.commits,
                        lines: c.lines,
                        prs: 0,
                    },
                );
                proof {
                    assert(contributions@ =~= prev + contributions_in(*r, cs@.take(j + 1), username@));
                }
            }
            j = j + 1;
        }
        proof {
            assert(cs@.take(j as int) =~= cs@);
        }
        i = i + 1;
    }
    proof {
        assert(rs@.take(i as int) =~= rs@);
    }
    sort_rows_by(&mut contributions, SortField::Commits, SortOrder::Descending);
    ContributorDetail { username: username.to_string(), contributions }
}

/// The ids of the organizations of a snapshot's repository rollups, each
/// once, in order of first appearance.
pub open spec fn org_order(rs: Seq<RepoScrape>) -> Seq<i64>
    decreases rs.len(),
{
    if rs.len() == 0 {
        Seq::empty()
    } else {
        let prev = org_order(rs.drop_last());
        if prev.contains(rs.last().org.id) {
            prev
        } else {
            prev.push(rs.last().org.id)
        }
    }
}

/// The name organization `o` carries on its first repository rollup.
pub open spec fn org_name_of(rs: Seq<RepoScrape>, o: i64) -> Seq<char>
    decreases rs.len(),
{
    if rs.len() == 0 {
        Seq::empty()
    } else if org_order(rs.drop_last()).contains(o) {
        org_name_of(rs.drop_last(), o)
    } else if rs.last().org.id == o {
        rs.last().org.name@
    } else {
        Seq::empty()
    }
}

/// The commits of organization `o`'s repository rollups.
pub open spec fn org_commits(rs: Seq<RepoScrape>, o: i64) -> int
    decreases rs.len(),
{
    if rs.len() == 0 {
        0
    } else {
        org_commits(rs.drop_last(), o) + if rs.last().org.id == o {
            rs.last().commits as int
        } else {
            0
        }
    }
}

/// The lines of organization `o`'s repository rollups.
pub open spec fn org_lines(rs: Seq<RepoScrape>, o: i64) -> int
    decreases rs.len(),
{
    if rs.len() == 0 {
        0
    } else {
        org_lines(rs.drop_last(), o) + if rs.last().org.id == o {
            rs.last().lines as int
        } else {
            0
        }
    }
}

/// The repositories of organization `o` that have a rollup.
pub open spec fn org_repo_ids(rs: Seq<RepoScrape>, o: i64) -> Set<i64>
    decreases rs.len(),
{
    if rs.len() == 0 {
        Set::empty()
    } else {
        let prev = org_repo_ids(rs.drop_last(), o);
        if rs.last().org.id == o {
            prev.insert(rs.last().repo.id)
        } else {
            prev
        }
    }
}

/// The contributors of organization `o`'s repository rollups.
pub open spec fn org_contributor_ids(rs: Seq<RepoScrape>, o: i64) -> Set<i64>
    decreases rs.len(),
{
    if rs.len() == 0 {
        Set::empty()
    } else {
        let prev = org_contributor_ids(rs.drop_last(), o);
        if rs.last().org.id == o {
            prev.union(contributor_ids(rs.last().contributor_scrapes@))
        } else {
            prev
        }
    }
}

/// Every figure of the organization rollup fits in an `i64`.
pub open spec fn org_rollup_fits(rs: Seq<RepoScrape>) -> bool {
    forall|k: int|
        0 <= k < org_order(rs).len() ==> {
            let o = #[trigger] org_order(rs)[k];
            &&& i64::MIN <= org_commits(rs, o) <= i64::MAX
            &&& i64::MIN <= org_lines(rs, o) <= i64::MAX
            &&& org_repo_ids(rs, o).len() <= i64::MAX
            &&& org_contributor_ids(rs, o).len() <= i64::MAX
        }
}

proof fn lemma_org_order_unique(rs: Seq<RepoScrape>)
    ensures
        org_order(rs).no_duplicates(),
        org_order(rs).len() <= rs.len(),
    decreases rs.len(),
{
    if rs.len() > 0 {
        lemma_org_order_unique(rs.drop_last());
    }
}

/// Adds the ids of `cs` to a list of distinct ids.
fn add_contributor_ids(seen: &mut Vec<i64>, cs: &Vec<ContributorScrapes>)
    requires
        old(seen)@.no_duplicates(),
    ensures
        final(seen)@.no_duplicates(),
        final(seen)@.to_set() == old(seen)@.to_set().union(contributor_ids(cs@)),
{
    let ghost start = seen@.to_set();
    let mut j: usize = 0;
    proof {
        assert(cs@.take(0).map_values(|c: ContributorScrapes| c.contributor.id).to_set() =~= Set::<i64>::empty());
        assert(start.union(Set::<i64>::empty()) =~= start);
    }
    while j < cs.len()
        invariant
            j <= cs@.len(),
            seen@.no_duplicates(),
            seen@.to_set() == start.union(contributor_ids(cs@.take(j as int))),
        decreases cs@.len() - j,
    {
        add_distinct(seen, cs[j].contributor.id);
        proof {
            let f = |c: ContributorScrapes| c.contributor.id;
            assert(cs@.take(j + 1).map_values(f) =~= cs@.take(j as int).map_values(f) + seq![cs@[j as int].contributor.id]);
            Seq::lemma_to_set_insert_commutes(cs@.take(j as int).map_values(f), cs@[j as int].contributor.id);
            assert(seen@.to_set() =~= start.union(contributor_ids(cs@.take(j + 1))));
        }
        j = j + 1;
    }
    proof {
        assert(cs@.take(j as int) =~= cs@);
    }
}

/// The rollup of organization `o`: commits and lines in 128 bits, then
/// the numbers of distinct repositories and contributors.
fn org_totals(rs: &Vec<RepoScrape>, o: i64) -> (r: (i128, i128, usize, usize))
    ensures
        r.0 == org_commits(rs@, o),
        r.1 == org_lines(rs@, o),
        r.2 == org_repo_ids(rs@, o).len(),
        r.3 == org_contributor_ids(rs@, o).len(),
{
    let mut commits: i128 = 0;
    let mut lines: i128 = 0;
    let mut repos: Vec<i64> = Vec::new();
    let mut contributors: Vec<i64> = Vec::new();
    let mut i: usize = 0;
    proof {
        assert(repos@.to_set() =~= Set::<i64>::empty());
        assert(contributors@.to_set() =~= Set::<i64>::empty());
        assert(rs@.take(0) =~= Seq::<RepoScrape>::empty());
    }
    while i < rs.len()
        invariant
            i <= rs@.len(),
            commits == org_commits(rs@.take(i as int), o),
            lines == org_lines(rs@.take(i as int), o),
            -(i as int) * 0x8000_0000_0000_0000 <= commits <= (i as int) * 0x8000_0000_0000_0000,
            -(i as int) * 0x8000_0000_0000_0000 <= lines <= (i as int) * 0x8000_0000_0000_0000,
            repos@.no_duplicates(),
            repos@.to_set() == org_repo_ids(rs@.take(i as int), o),
            contributors@.no_duplicates(),
            contributors@.to_set() == org_contributor_ids(rs@.take(i as int), o),
        decreases rs@.len() - i,
    {
        let r = &rs[i];
        proof {
            assert(rs@.take(i + 1).drop_last() =~= rs@.take(i as int));
            assert(rs@.take(i + 1).last() == rs@[i as int]);
            assert((i as int + 1) * 0x8000_0000_0000_0000 < 0x7fff_ffff_ffff_ffff_ffff_ffff_ffff_ffff) by (nonlinear_arith)
                requires i as int + 1 <= 0xffff_ffff_ffff_ffff;
            assert((i as int + 1) * 0x8000_0000_0000_0000 == (i as int) * 0x8000_0000_0000_0000 + 0x8000_0000_0000_0000) by (nonlinear_arith);
        }
        if r.org.id == o {
            commits = commits + r.commits as i128;
            lines = lines + r.lines as i128;
            add_distinct(&mut repos, r.repo.id);
            add_contributor_ids(&mut contributors, &r.contributor_scrapes);
        }
        i = i + 1;
    }
    proof {
        assert(rs@.take(i as int) =~= rs@);
        repos@.unique_seq_to_set();
        contributors@.unique_seq_to_set();
    }
    (commits, lines, repos.len(), contributors.len())
}

/// `u` holds one row per organization with a repository rollup in `rs`,
/// in order of first appearance, with the sums of its commits and lines and
/// the numbers of its distinct repositories and contributors.
pub open spec fn org_rows(u: Seq<OrgStats>, rs: Seq<RepoScrape>) -> bool {
    &&& u.len() == org_order(rs).len()
    &&& forall|k: int|
        0 <= k < u.len() ==> {
            let o = #[trigger] org_order(rs)[k];
            &&& u[k].name@ == org_name_of(rs, o)
            &&& u[k].total_commits == org_commits(rs, o)
            &&& u[k].total_lines == org_lines(rs, o)
            &&& u[k].repo_count == org_repo_ids(rs, o).len()
            &&& u[k].contributor_count == org_contributor_ids(rs, o).len()
        }
}

/// The organization rollup of a snapshot, sorted by commits, descending
/// (stably, so organizations with equal commits keep their order of first
/// appearance). `None` where a figure does not fit in an `i64`.
pub fn get_org_stats(scrape: &Scrape) -> (rows: Option<Vec<OrgStats>>)
    ensures
        rows is None <==> !org_rollup_fits(scrape.repo_scrapes@),
        rows matches Some(v) ==> exists|u: Seq<OrgStats>|
            org_rows(u, scrape.repo_scrapes@) && v@ == sort_rows(u, SortField::Commits, SortOrder::Descending),
{
    match org_rollup(scrape) {
        None => None,
        Some(rows) => {
            let mut rows = rows;
            let ghost u = rows@;
            sort_rows_by(&mut rows, SortField::Commits, SortOrder::Descending);
            proof {
                assert(org_rows(u, scrape.repo_scrapes@));
            }
            Some(rows)
        },
    }
}

fn org_rollup(scrape: &Scrape) -> (rows: Option<Vec<OrgStats>>)
    ensures
        rows is None <==> !org_rollup_fits(scrape.repo_scrapes@),
        rows matches Some(v) ==> org_rows(v@, scrape.repo_scrapes@),
{
    let rs = &scrape.repo_scrapes;
    let mut ids: Vec<i64> = Vec::new();
    let mut names: Vec<String> = Vec::new();
    let mut i: usize = 0;
    while i < rs.len()
        invariant
            i <= rs@.len(),
            ids@ == org_order(rs@.take(i as int)),
            names@.len() == ids@.len(),
            forall|k: int| 0 <= k < ids@.len() ==> #[trigger] names@[k]@ == org_name_of(rs@.take(i as int), ids@[k]),
        decreases rs@.len() - i,
    {
        let r = &rs[i];
        let ghost pre = rs@.take(i as int);
        let ghost next = rs@.take(i + 1);
        proof {
            assert(next.drop_last() =~= pre);
            assert(next.last() == rs@[i as int]);
        }
        let mut k: usize = 0;
        while k < ids.len() && ids[k] != r.org.id
            invariant
                k <= ids@.len(),
                forall|j: int| 0 <= j < k ==> ids@[j] != r.org.id,
            decreases ids@.len() - k,
        {
            k = k + 1;
        }
        if k == ids.len() {
            ids.push(r.org.id);
            names.push(r.org.name.clone());
            proof {
                assert(!org_order(pre).contains(r.org.id));
                assert forall|j: int| 0 <= j < ids@.len() implies #[trigger] names@[j]@ == org_name_of(next, ids@[j]) by {
                    if j < ids@.len() - 1 {
                        assert(org_order(pre).contains(ids@[j]));
                    }
                }
            }
        } else {
            proof {
                assert(org_order(pre).contains(r.org.id)) by {
                    assert(org_order(pre)[k as int] == r.org.id);
                }
                assert forall|j: int| 0 <= j < ids@.len() implies #[trigger] names@[j]@ == org_name_of(next, ids@[j]) by {
                    assert(org_order(pre).contains(ids@[j]));
                }
            }
        }
        i = i + 1;
    }
    proof {
        assert(rs@.take(i as int) =~= rs@);
    }
    let ghost order = ids@;
    let mut rows: Vec<OrgStats> = Vec::new();
    let mut names = names;
    let mut k: usize = 0;
    while k < ids.len()
        invariant
            rs@ == scrape.repo_scrapes@,
            order == org_order(rs@),
            ids@ == order,
            k <= ids@.len(),
            names@.len() == ids@.len() - k,
            forall|j: int| 0 <= j < names@.len() ==> #[trigger] names@[j]@ == org_name_of(rs@, order[j + k]),
            rows@.len() == k,
            forall|j: int| 0 <= j < k ==> {
                let o = #[trigger] order[j];
                &&& rows@[j].name@ == org_name_of(rs@, o)
                &&& rows@[j].total_commits == org_commits(rs@, o)
                &&& rows@[j].total_lines == org_lines(rs@, o)
                &&& rows@[j].repo_count == org_repo_ids(rs@, o).len()
                &&& rows@[j].contributor_count == org_contributor_ids(rs@, o).len()
            },
            forall|j: int| 0 <= j < k ==> {
                let o = #[trigger] order[j];
                &&& i64::MIN <= org_commits(rs@, o) <= i64::MAX
                &&& i64::MIN <= org_lines(rs@, o) <= i64::MAX
                &&& org_repo_ids(rs@, o).len() <= i64::MAX
                &&& org_contributor_ids(rs@, o).len() <= i64::MAX
            },
        decreases ids@.len() - k,
    {
        let o = ids[k];
        let (commits, lines, repo_count, contributor_count) = org_totals(rs, o);
        if commits < i64::MIN as i128 || commits > i64::MAX as i128 || lines < i64::MIN as i128 || lines
            > i64::MAX as i128 || repo_count as u64 > i64::MAX as u64 || contributor_count as u64 > i64::MAX as u64 {
            proof {
                assert(order[k as int] == o);
                let kk = k as int;
                assert(0 <= kk < org_order(rs@).len());
                assert(!({
                    let o2 = org_order(rs@)[kk];
                    &&& i64::MIN <= org_commits(rs@, o2) <= i64::MAX
                    &&& i64::MIN <= org_lines(rs@, o2) <= i64::MAX
                    &&& org_repo_ids(rs@, o2).len() <= i64::MAX
                    &&& org_contributor_ids(rs@, o2).len() <= i64::MAX
                }));
            }
            return None;
        }
        let ghost before_names = names@;
        let name = names.remove(0);
        rows.push(
            OrgStats {
                name,
                total_commits: commits as i64,
                total_lines: lines as i64,
                repo_count: repo_count as i64,
                contributor_count: contributor_count as i64,
            },
        );
        proof {
            assert forall|j: int| 0 <= j < names@.len() implies #[trigger] names@[j]@ == org_name_of(rs@, order[j + k + 1]) by {
                assert(names@[j] == before_names[j + 1]);
            }
        }
        k = k + 1;
    }
    proof {
        assert forall|j: int| 0 <= j < org_order(rs@).len() implies {
            let o = #[trigger] org_order(rs@)[j];
            &&& i64::MIN <= org_commits(rs@, o) <= i64::MAX
            &&& i64::MIN <= org_lines(rs@, o) <= i64::MAX
            &&& org_repo_ids(rs@, o).len() <= i64::MAX
            &&& org_contributor_ids(rs@, o).len() <= i64::MAX
        } by {
            assert(order[j] == org_order(rs@)[j]);
        }
    }
    Some(rows)
}

/// The names of `v`, as a set.
pub open spec fn name_set(v: Seq<String>) -> Set<Seq<char>> {
    v.map_values(|s: String| s@).to_set()
}

/// Each name comes strictly before the next.
pub open spec fn strictly_sorted(v: Seq<String>) -> bool {
    forall|i: int, j: int| 0 <= i < j < v.len() ==> text_lt(#[trigger] v[i]@, #[trigger] v[j]@)
}

/// Adds `name` to a strictly sorted list of names, unless it is there.
fn insert_name(names: &mut Vec<String>, name: &String)
    requires
        strictly_sorted(old(names)@),
    ensures
        strictly_sorted(final(names)@),
        name_set(final(names)@) == name_set(old(names)@).insert(name@),
        final(names)@.len() <= old(names)@.len() + 1,
{
    let ghost before = names@;
    let mut p: usize = 0;
    while p < names.len() && text_less(names[p].as_str(), name.as_str())
        invariant
            p <= names@.len(),
            names@ == before,
            forall|j: int| 0 <= j < p ==> text_lt(#[trigger] names@[j]@, name@),
        decreases names@.len() - p,
    {
        p = p + 1;
    }
    if p < names.len() && text_equal(names[p].as_str(), name.as_str()) {
        proof {
            assert(name_set(names@) =~= name_set(before).insert(name@)) by {
                assert(names@.map_values(|s: String| s@)[p as int] == name@);
            }
        }
        return;
    }
    proof {
        if p < names@.len() {
            lemma_text_lt_total(names@[p as int]@, name@);
        }
    }
    names.insert(p, name.clone());
    proof {
        let v = names@;
        assert forall|i: int, j: int| 0 <= i < j < v.len() implies text_lt(#[trigger] v[i]@, #[trigger] v[j]@) by {
            if j < p {
                assert(v[i] == before[i] && v[j] == before[j]);
            } else if j == p {
                assert(v[i] == before[i]);
            } else if i == p {
                assert(v[j] == before[j - 1]);
                if j - 1 > p {
                    assert(text_lt(before[p as int]@, before[j - 1]@));
                    lemma_text_lt_transitive(name@, before[p as int]@, before[j - 1]@);
                }
            } else if i < p {
                assert(v[i] == before[i] && v[j] == before[j - 1]);
                if j - 1 == p {
                    lemma_text_lt_transitive(before[i]@, name@, before[j - 1]@);
                } else {
                    assert(text_lt(before[i]@, before[j - 1]@));
                }
            } else {
                assert(v[i] == before[i - 1] && v[j] == before[j - 1]);
            }
        }
        let f = |s: String| s@;
        assert(name_set(v) =~= name_set(before).insert(name@)) by {
            assert forall|x: Seq<char>| name_set(v).contains(x) == name_set(before).insert(name@).contains(x) by {
                if name_set(v).contains(x) {
                    let k = choose|k: int| 0 <= k < v.map_values(f).len() && v.map_values(f)[k] == x;
                    if k < p {
                        assert(before.map_values(f)[k] == x);
                    } else if k > p {
                        assert(before.map_values(f)[k - 1] == x);
                    }
                }
                if name_set(before).contains(x) {
                    let k = choose|k: int| 0 <= k < before.map_values(f).len() && before.map_values(f)[k] == x;
                    if k < p {
                        assert(v.map_values(f)[k] == x);
                    } else {
                        assert(v.map_values(f)[k + 1] == x);
                    }
                }
                if x == name@ {
                    assert(v.map_values(f)[p as int] == x);
                }
            }
        }
    }
}

/// One contributor rollup together with the repository rollup it belongs
/// to.
pub type Appearance = (RepoScrape, ContributorScrapes);

/// The contributor rollups `cs` of repository rollup `r`, each with `r`.
pub open spec fn appearances_in(r: RepoScrape, cs: Seq<ContributorScrapes>) -> Seq<Appearance> {
    cs.map_values(|c: ContributorScrapes| (r, c))
}

/// Every contributor rollup of a snapshot with its repository rollup, in
/// the snapshot's order.
pub open spec fn appearances(rs: Seq<RepoScrape>) -> Seq<Appearance>
    decreases rs.len(),
{
    if rs.len() == 0 {
        Seq::empty()
    } else {
        appearances(rs.drop_last()) + appearances_in(rs.last(), rs.last().contributor_scrapes@)
    }
}

/// The ids of the contributors of `es`, each once, in order of first
/// appearance.
pub open spec fn contributor_order(es: Seq<Appearance>) -> Seq<i64>
    decreases es.len(),
{
    if es.len() == 0 {
        Seq::empty()
    } else {
        let prev = contributor_order(es.drop_last());
        let id = es.last().1.contributor.id;
        if prev.contains(id) {
            prev
        } else {
            prev.push(id)
        }
    }
}

/// The username contributor `c` carries on its first appearance.
pub open spec fn contributor_name_of(es: Seq<Appearance>, c: i64) -> Seq<char>
    decreases es.len(),
{
    if es.len() == 0 {
        Seq::empty()
    } else if contributor_order(es.drop_last()).contains(c) {
        contributor_name_of(es.drop_last(), c)
    } else if es.last().1.contributor.id == c {
        es.last().1.contributor.username@
    } else {
        Seq::empty()
    }
}

/// The commits of contributor `c` over `es`.
pub open spec fn contributor_commits(es: Seq<Appearance>, c: i64) -> int
    decreases es.len(),
{
    if es.len() == 0 {
        0
    } else {
        contributor_commits(es.drop_last(), c) + if es.last().1.contributor.id == c {
            es.last().1.commits as int
        } else {
            0
        }
    }
}

/// The lines of contributor `c` over `es`.
pub open spec fn contributor_lines(es: Seq<Appearance>, c: i64) -> int
    decreases es.len(),
{
    if es.len() == 0 {
        0
    } else {
        contributor_lines(es.drop_last(), c) + if es.last().1.contributor.id == c {
            es.last().1.lines as int
        } else {
            0
        }
    }
}

/// The repositories contributor `c` appears in.
pub open spec fn contributor_repo_ids(es: Seq<Appearance>, c: i64) -> Set<i64>
    decreases es.len(),
{
    if es.len() == 0 {
        Set::empty()
    } else {
        let prev = contributor_repo_ids(es.drop_last(), c);
        if es.last().1.contributor.id == c {
            prev.insert(es.last().0.repo.id)
        } else {
            prev
        }
    }
}

/// The names of the organizations contributor `c` appears in.
pub open spec fn contributor_org_names(es: Seq<Appearance>, c: i64) -> Set<Seq<char>>
    decreases es.len(),
{
    if es.len() == 0 {
        Set::empty()
    } else {
        let prev = contributor_org_names(es.drop_last(), c);
        if es.last().1.contributor.id == c {
            prev.insert(es.last().0.org.name@)
        } else {
            prev
        }
    }
}

/// Every figure of the contributor rollup fits in an `i64`.
pub open spec fn contributor_rollup_fits(es: Seq<Appearance>) -> bool {
    forall|k: int|
        0 <= k < contributor_order(es).len() ==> {
            let c = #[trigger] contributor_order(es)[k];
            &&& i64::MIN <= contributor_commits(es, c) <= i64::MAX
            &&& i64::MIN <= contributor_lines(es, c) <= i64::MAX
            &&& contributor_repo_ids(es, c).len() <= i64::MAX
        }
}

proof fn lemma_appearances_prefix(rs: Seq<RepoScrape>, i: int)
    requires
        0 <= i <= rs.len(),
    ensures
        appearances(rs.take(i)).len() <= appearances(rs).len(),
        appearances(rs).take(appearances(rs.take(i)).len() as int) == appearances(rs.take(i)),
    decreases rs.len(),
{
    if i == rs.len() {
        assert(rs.take(i) =~= rs);
        assert(appearances(rs).take(appearances(rs).len() as int) =~= appearances(rs));
    } else {
        lemma_appearances_prefix(rs.drop_last(), i);
        assert(rs.drop_last().take(i) =~= rs.take(i));
        let a = appearances(rs.drop_last());
        let n = appearances(rs.take(i)).len() as int;
        assert((a + appearances_in(rs.last(), rs.last().contributor_scrapes@)).take(n) =~= a.take(n));
    }
}

/// The rollup of contributor `c`: commits and lines in 128 bits, the
/// number of distinct repositories and the sorted names of the
/// organizations.
fn contributor_totals(rs: &Vec<RepoScrape>, c: i64) -> (r: (i128, i128, usize, Vec<String>))
    requires
        appearances(rs@).len() <= u64::MAX,
    ensures
        ({
            let all = appearances(rs@);
            &&& r.0 == contributor_commits(all, c)
            &&& r.1 == contributor_lines(all, c)
            &&& r.2 == contributor_repo_ids(all, c).len()
            &&& strictly_sorted(r.3@)
            &&& name_set(r.3@) == contributor_org_names(all, c)
        }),
{
    let ghost all = appearances(rs@);
    proof {
        assert(rs@.take(0) =~= Seq::<RepoScrape>::empty());
    }
    let mut commits: i128 = 0;
    let mut lines: i128 = 0;
    let mut repos: Vec<i64> = Vec::new();
    let mut orgs: Vec<String> = Vec::new();
    proof {
        assert(repos@.to_set() =~= Set::<i64>::empty());
        assert(name_set(orgs@) =~= Set::<Seq<char>>::empty());
    }
    let mut i: usize = 0;
    while i < rs.len()
        invariant
            i <= rs@.len(),
            all == appearances(rs@),
            all.len() <= u64::MAX,
            appearances(rs@.take(i as int)).len() <= all.len(),
            -(appearances(rs@.take(i as int)).len() as int) * 0x8000_0000_0000_0000 <= commits
                <= (appearances(rs@.take(i as int)).len() as int) * 0x8000_0000_0000_0000,
            -(appearances(rs@.take(i as int)).len() as int) * 0x8000_0000_0000_0000 <= lines
                <= (appearances(rs@.take(i as int)).len() as int) * 0x8000_0000_0000_0000,
            commits == contributor_commits(appearances(rs@.take(i as int)), c),
            lines == contributor_lines(appearances(rs@.take(i as int)), c),
            repos@.no_duplicates(),
            repos@.to_set() == contributor_repo_ids(appearances(rs@.take(i as int)), c),
            strictly_sorted(orgs@),
            name_set(orgs@) == contributor_org_names(appearances(rs@.take(i as int)), c),
        decreases rs@.len() - i,
    {
        let r = &rs[i];
        let cs = &r.contributor_scrapes;
        let ghost base = appearances(rs@.take(i as int));
        proof {
            lemma_appearances_prefix(rs@, i + 1);
            assert(rs@.take(i + 1).drop_last() =~= rs@.take(i as int));
            assert(rs@.take(i + 1).last() == rs@[i as int]);
            assert(appearances_in(*r, cs@.take(0)) =~= Seq::<Appearance>::empty());
            assert(base + appearances_in(*r, cs@.take(0)) =~= base);
        }
        let mut j: usize = 0;
        while j < cs.len()
            invariant
                j <= cs@.len(),
                all == appearances(rs@),
                all.len() <= u64::MAX,
                *r == rs@[i as int],
                cs@ == rs@[i as int].contributor_scrapes@,
                i < rs@.len(),
                base == appearances(rs@.take(i as int)),
                appearances(rs@.take(i + 1)) == base + appearances_in(*r, cs@),
                appearances(rs@.take(i + 1)).len() <= all.len(),
                -((base + appearances_in(*r, cs@.take(j as int))).len() as int) * 0x8000_0000_0000_0000 <= commits
                    <= ((base + appearances_in(*r, cs@.take(j as int))).len() as int) * 0x8000_0000_0000_0000,
                -((base + appearances_in(*r, cs@.take(j as int))).len() as int) * 0x8000_0000_0000_0000 <= lines
                    <= ((base + appearances_in(*r, cs@.take(j as int))).len() as int) * 0x8000_0000_0000_0000,
                commits == contributor_commits(base + appearances_in(*r, cs@.take(j as int)), c),
                lines == contributor_lines(base + appearances_in(*r, cs@.take(j as int)), c),
                repos@.no_duplicates(),
                repos@.to_set() == contributor_repo_ids(base + appearances_in(*r, cs@.take(j as int)), c),
                strictly_sorted(orgs@),
                name_set(orgs@) == contributor_org_names(base + appearances_in(*r, cs@.take(j as int)), c),
            decreases cs@.len() - j,
        {
            let e = &cs[j];
            let ghost pre = base + appearances_in(*r, cs@.take(j as int));
            let ghost next = base + appearances_in(*r, cs@.take(j + 1));
            proof {
                assert(next =~= pre.push((*r, *e)));
                assert(next.drop_last() =~= pre);
                assert(appearances_in(*r, cs@).len() == cs@.len());
                assert(next.len() <= all.len());
                let n = pre.len() as int;
                assert((n + 1) * 0x8000_0000_0000_0000 < 0x7fff_ffff_ffff_ffff_ffff_ffff_ffff_ffff) by (nonlinear_arith)
                    requires n + 1 <= 0xffff_ffff_ffff_ffff;
                assert((n + 1) * 0x8000_0000_0000_0000 == n * 0x8000_0000_0000_0000 + 0x8000_0000_0000_0000) by (nonlinear_arith);
            }
            if e.contributor.id == c {
                commits = commits + e.commits as i128;
                lines = lines + e.lines as i128;
                add_distinct(&mut repos, r.repo.id);
                insert_name(&mut orgs, &r.org.name);
            }
            j = j + 1;
        }
        proof {
            assert(cs@.take(j as int) =~= cs@);
        }
        i = i + 1;
    }
    proof {
        assert(rs@.take(i as int) =~= rs@);
        repos@.unique_seq_to_set();
    }
    (commits, lines, repos.len(), orgs)
}

/// The number of contributor rollups of a snapshot, or `None` where it
/// exceeds a 64-bit count.
fn appearance_count(rs: &Vec<RepoScrape>) -> (n: Option<u64>)
    ensures
        n is None <==> appearances(rs@).len() > u64::MAX,
        n matches Some(k) ==> k == appearances(rs@).len(),
{
    let mut total: u64 = 0;
    let mut i: usize = 0;
    proof {
        assert(rs@.take(0) =~= Seq::<RepoScrape>::empty());
    }
    while i < rs.len()
        invariant
            i <= rs@.len(),
            total == appearances(rs@.take(i as int)).len(),
        decreases rs@.len() - i,
    {
        let k = rs[i].contributor_scrapes.len();
        proof {
            lemma_appearances_prefix(rs@, i + 1);
            assert(rs@.take(i + 1).drop_last() =~= rs@.take(i as int));
            assert(rs@.take(i + 1).last() == rs@[i as int]);
            assert(appearances_in(rs@[i as int], rs@[i as int].contributor_scrapes@).len() == k);
        }
        if k as u64 > u64::MAX - total {
            return None;
        }
        total = total + k as u64;
        i = i + 1;
    }
    proof {
        assert(rs@.take(i as int) =~= rs@);
    }
    Some(total)
}

/// `u` holds one row per contributor of `es`, in order of first
/// appearance, with the sums of their commits and lines, the number of
/// distinct repositories they appear in and the names of those
/// repositories' organizations, sorted.
pub open spec fn contributor_rows(u: Seq<ContributorStats>, es: Seq<Appearance>) -> bool {
    &&& u.len() == contributor_order(es).len()
    &&& forall|k: int|
        0 <= k < u.len() ==> {
            let c = #[trigger] contributor_order(es)[k];
            &&& u[k].username@ == contributor_name_of(es, c)
            &&& u[k].total_commits == contributor_commits(es, c)
            &&& u[k].total_lines == contributor_lines(es, c)
            &&& u[k].repo_count == contributor_repo_ids(es, c).len()
            &&& strictly_sorted(u[k].orgs@)
            &&& name_set(u[k].orgs@) == contributor_org_names(es, c)
        }
}

/// The contributor rollup of a snapshot, sorted by commits, descending
/// (stably). `None` where the snapshot holds more contributor rollups than
/// a 64-bit count or a figure does not fit in an `i64`.
pub fn get_contributor_stats(scrape: &Scrape) -> (rows: Option<Vec<ContributorStats>>)
    ensures
        rows is None <==> appearances(scrape.repo_scrapes@).len() > u64::MAX || !contributor_rollup_fits(
            appearances(scrape.repo_scrapes@),
        ),
        rows matches Some(v) ==> exists|u: Seq<ContributorStats>|
            contributor_rows(u, appearances(scrape.repo_scrapes@)) && v@ == sort_rows(
                u,
                SortField::Commits,
                SortOrder::Descending,
            ),
{
    match contributor_rollup(scrape) {
        None => None,
        Some(rows) => {
            let mut rows = rows;
            let ghost u = rows@;
            sort_rows_by(&mut rows, SortField::Commits, SortOrder::Descending);
            proof {
                assert(contributor_rows(u, appearances(scrape.repo_scrapes@)));
            }
            Some(rows)
        },
    }
}

fn contributor_rollup(scrape: &Scrape) -> (rows: Option<Vec<ContributorStats>>)
    ensures
        rows is None <==> appearances(scrape.repo_scrapes@).len() > u64::MAX || !contributor_rollup_fits(
            appearances(scrape.repo_scrapes@),
        ),
        rows matches Some(v) ==> contributor_rows(v@, appearances(scrape.repo_scrapes@)),
{
    let rs = &scrape.repo_scrapes;
    if appearance_count(rs).is_none() {
        return None;
    }
    let ghost all = appearances(rs@);
    let mut ids: Vec<i64> = Vec::new();
    let mut names: Vec<String> = Vec::new();
    let mut i: usize = 0;
    proof {
        assert(rs@.take(0) =~= Seq::<RepoScrape>::empty());
    }
    while i < rs.len()
        invariant
            i <= rs@.len(),
            ids@ == contributor_order(appearances(rs@.take(i as int))),
            names@.len() == ids@.len(),
            forall|k: int|
                0 <= k < ids@.len() ==> #[trigger] names@[k]@ == contributor_name_of(
                    appearances(rs@.take(i as int)),
                    ids@[k],
                ),
        decreases rs@.len() - i,
    {
        let r = &rs[i];
        let cs = &r.contributor_scrapes;
        let ghost base = appearances(rs@.take(i as int));
        proof {
            assert(rs@.take(i + 1).drop_last() =~= rs@.take(i as int));
            assert(rs@.take(i + 1).last() == rs@[i as int]);
            assert(base + appearances_in(*r, cs@.take(0)) =~= base);
        }
        let mut j: usize = 0;
        while j < cs.len()
            invariant
                j <= cs@.len(),
                i < rs@.len(),
                *r == rs@[i as int],
                cs@ == rs@[i as int].contributor_scrapes@,
                base == appearances(rs@.take(i as int)),
                appearances(rs@.take(i + 1)) == base + appearances_in(*r, cs@),
                ids@ == contributor_order(base + appearances_in(*r, cs@.take(j as int))),
                names@.len() == ids@.len(),
                forall|k: int|
                    0 <= k < ids@.len() ==> #[trigger] names@[k]@ == contributor_name_of(
                        base + appearances_in(*r, cs@.take(j as int)),
                        ids@[k],
                    ),
            decreases cs@.len() - j,
        {
            let e = &cs[j];
            let ghost pre = base + appearances_in(*r, cs@.take(j as int));
            let ghost next = base + appearances_in(*r, cs@.take(j + 1));
            proof {
                assert(next =~= pre.push((*r, *e)));
                assert(next.drop_last() =~= pre);
            }
            let id = e.contributor.id;
            let mut k: usize = 0;
            while k < ids.len() && ids[k] != id
                invariant
                    k <= ids@.len(),
                    forall|m: int| 0 <= m < k ==> ids@[m] != id,
                decreases ids@.len() - k,
            {
                k = k + 1;
            }
            if k == ids.len() {
                ids.push(id);
                names.push(e.contributor.username.clone());
                proof {
                    assert(!contributor_order(pre).contains(id));
                    assert forall|m: int| 0 <= m < ids@.len() implies #[trigger] names@[m]@
                        == contributor_name_of(next, ids@[m]) by {
                        if m < ids@.len() - 1 {
                            assert(contributor_order(pre).contains(ids@[m]));
                        }
                    }
                }
            } else {
                proof {
                    assert(contributor_order(pre)[k as int] == id);
                    assert forall|m: int| 0 <= m < ids@.len() implies #[trigger] names@[m]@
                        == contributor_name_of(next, ids@[m]) by {
                        assert(contributor_order(pre).contains(ids@[m]));
                    }
                }
            }
            j = j + 1;
        }
        proof {
            assert(cs@.take(j as int) =~= cs@);
        }
        i = i + 1;
    }
    proof {
        assert(rs@.take(i as int) =~= rs@);
    }
    let ghost order = ids@;
    let mut rows: Vec<ContributorStats> = Vec::new();
    let mut names = names;
    let mut k: usize = 0;
    while k < ids.len()
        invariant
            rs@ == scrape.repo_scrapes@,
            all == appearances(rs@),
            all.len() <= u64::MAX,
            order == contributor_order(all),
            ids@ == order,
            k <= ids@.len(),
            names@.len() == ids@.len() - k,
            forall|j: int| 0 <= j < names@.len() ==> #[trigger] names@[j]@ == contributor_name_of(all, order[j + k]),
            rows@.len() == k,
            forall|j: int|
                0 <= j < k ==> {
                    let c = #[trigger] order[j];
                    &&& rows@[j].username@ == contributor_name_of(all, c)
                    &&& rows@[j].total_commits == contributor_commits(all, c)
                    &&& rows@[j].total_lines == contributor_lines(all, c)
                    &&& rows@[j].repo_count == contributor_repo_ids(all, c).len()
                    &&& strictly_sorted(rows@[j].orgs@)
                    &&& name_set(rows@[j].orgs@) == contributor_org_names(all, c)
                },
            forall|j: int|
                0 <= j < k ==> {
                    let c = #[trigger] order[j];
                    &&& i64::MIN <= contributor_commits(all, c) <= i64::MAX
                    &&& i64::MIN <= contributor_lines(all, c) <= i64::MAX
                    &&& contributor_repo_ids(all, c).len() <= i64::MAX
                },
        decreases ids@.len() - k,
    {
        let c = ids[k];
        let totals = contributor_totals(rs, c);
        let kk = k;
        proof {
            assert(order[kk as int] == c);
        }
        let (commits, lines, repo_count, orgs) = totals;
        if commits < i64::MIN as i128 || commits > i64::MAX as i128 || lines < i64::MIN as i128 || lines
            > i64::MAX as i128 || repo_count as u64 > i64::MAX as u64 {
            proof {
                assert(0 <= kk < contributor_order(all).len());
                assert(contributor_order(all)[kk as int] == c);
            }
            return None;
        }
        let ghost before_names = names@;
        let username = names.remove(0);
        rows.push(
            ContributorStats {
                username,
                total_commits: commits as i64,
                total_lines: lines as i64,
                repo_count: repo_count as i64,
                orgs,
            },
        );
        proof {
            assert forall|j: int| 0 <= j < names@.len() implies #[trigger] names@[j]@
                == contributor_name_of(all, order[j + k + 1]) by {
                assert(names@[j] == before_names[j + 1]);
            }
        }
        k = k + 1;
    }
    proof {
        assert forall|j: int| 0 <= j < contributor_order(all).len() implies {
            let c = #[trigger] contributor_order(all)[j];
            &&& i64::MIN <= contributor_commits(all, c) <= i64::MAX
            &&& i64::MIN <= contributor_lines(all, c) <= i64::MAX
            &&& contributor_repo_ids(all, c).len() <= i64::MAX
        } by {
            assert(order[j] == contributor_order(all)[j]);
        }
    }
    Some(rows)
}

} // verus!
