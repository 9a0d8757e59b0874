use vstd::prelude::*;
use vstd::view::View as _;
use crate::stats::{
    ViewData, ScrapeInfo, OrgStats, RepoStats, ContributorStats, RepoContributor, ContributorRepo,
    row_count,
};
pub use crate::sorting::{SortField, SortOrder};
use crate::sorting::{sort_rows, sort_rows_by, flipped, lemma_resort};

verus! {

/// The screens of the dashboard.
#[derive(Clone, Copy, Debug, PartialEq, Eq, Structural)]
pub enum View {
    Org,
    Repo,
    Contributors,
    ScrapeSelection,
    OrgDetail,
    RepoDetail,
    ContributorDetail,
}

/// The entity a detail view shows.
#[derive(Debug)]
pub enum DrillTarget {
    Org(String),
    /// Organization name, repository name.
    Repo(String, String),
    Contributor(String),
}

/// A read of the snapshot store that a view waits for; the first field is
/// the snapshot's id.
#[derive(Debug)]
pub enum Query {
    OrgStats(i64),
    RepoStats(i64),
    ContributorStats(i64),
    OrgDetail(i64, String),
    /// Snapshot, organization name, repository name.
    RepoDetail(i64, String, String),
    ContributorDetail(i64, String),
}

/// A view left by drilling down: the view, the natural key of the row that
/// was drilled into, and the entity the view itself showed.
#[derive(Debug)]
pub struct HistoryEntry {
    pub view: View,
    pub context: String,
    pub subject: Option<DrillTarget>,
}

/// The dashboard's state.
///
/// Reads of the store are not made here: a method that needs one returns the
/// `Query`, and the result is handed back through `complete_load` or
/// `fail_load`.
#[derive(Debug)]
pub struct App {
    pub current_view: View,
    pub current_scrape: Option<i64>,
    pub scrapes: Vec<ScrapeInfo>,
    pub data: ViewData,
    pub sort_order: SortOrder,
    pub sort_field: SortField,
    pub selected_index: usize,
    pub scrape_selected_index: usize,
    pub should_quit: bool,
    pub is_scraping: bool,
    pub scraping_error: Option<String>,
    pub pending_view_switch: Option<View>,
    pub start_scraping_requested: bool,
    pub drill_down_requested: bool,
    pub navigate_back_requested: bool,
    pub view_history: Vec<HistoryEntry>,
    /// The entity the current detail view shows.
    pub detail_subject: Option<DrillTarget>,
}

/// `new` holds the rows of `old`, each list sorted stably by `field` in
/// `order`; everything else is as in `old`.
pub open spec fn sorted_from(new: ViewData, old: ViewData, field: SortField, order: SortOrder) -> bool {
    match old {
        ViewData::Orgs(v) => new matches ViewData::Orgs(n) && n@ == sort_rows(v@, field, order),
        ViewData::Repos(v) => new matches ViewData::Repos(n) && n@ == sort_rows(v@, field, order),
        ViewData::Contributors(v) => new matches ViewData::Contributors(n) && n@ == sort_rows(
            v@,
            field,
            order,
        ),
        ViewData::OrgDetail(d) => new matches ViewData::OrgDetail(n) && n.org_name == d.org_name
            && n.repos@ == sort_rows(d.repos@, field, order),
        ViewData::RepoDetail(d) => new matches ViewData::RepoDetail(n) && n.org_name == d.org_name
            && n.repo_name == d.repo_name && n.contributors@ == sort_rows(d.contributors@, field, order),
        ViewData::ContributorDetail(d) => new matches ViewData::ContributorDetail(n) && n.username
            == d.username && n.contributions@ == sort_rows(d.contributions@, field, order),
        ViewData::Loading => new is Loading,
        ViewData::Error(_) => new == old,
    }
}

/// The views that list a whole snapshot.
pub open spec fn is_list_view(v: View) -> bool {
    v == View::Org || v == View::Repo || v == View::Contributors
}

/// The read that fills list view `view` for snapshot `id`.
pub open spec fn list_query(view: View, id: i64) -> Option<Query> {
    match view {
        View::Org => Some(Query::OrgStats(id)),
        View::Repo => Some(Query::RepoStats(id)),
        View::Contributors => Some(Query::ContributorStats(id)),
        _ => None,
    }
}

/// The read that fills the detail view of `t` for snapshot `id`.
pub open spec fn target_query(id: i64, t: DrillTarget) -> Query {
    match t {
        DrillTarget::Org(o) => Query::OrgDetail(id, o),
        DrillTarget::Repo(o, r) => Query::RepoDetail(id, o, r),
        DrillTarget::Contributor(u) => Query::ContributorDetail(id, u),
    }
}

/// The detail view that shows `t`.
pub open spec fn detail_view_of(t: DrillTarget) -> View {
    match t {
        DrillTarget::Org(_) => View::OrgDetail,
        DrillTarget::Repo(_, _) => View::RepoDetail,
        DrillTarget::Contributor(_) => View::ContributorDetail,
    }
}

/// The read that reloads `view`, showing `subject` where it is a detail
/// view, from the snapshot selected now.
pub open spec fn reload_query(view: View, scrape: Option<i64>, subject: Option<DrillTarget>) -> Option<Query> {
    match scrape {
        None => None,
        Some(id) => if is_list_view(view) {
            list_query(view, id)
        } else if view == View::ScrapeSelection {
            None
        } else {
            match subject {
                Some(t) => Some(target_query(id, t)),
                None => None,
            }
        },
    }
}

/// What drilling into row `i` of `d` opens, and the natural key recorded
/// for that row.
pub open spec fn drill_choice(d: ViewData, i: int) -> Option<(DrillTarget, Seq<char>)> {
    match d {
        ViewData::Orgs(v) => if 0 <= i < v@.len() {
            Some((DrillTarget::Org(v@[i].name), v@[i].name@))
        } else {
            None
        },
        ViewData::Repos(v) => if 0 <= i < v@.len() {
            Some(
                (
                    DrillTarget::Repo(v@[i].org_name, v@[i].repo_name),
                    v@[i].org_name@ + "/"@ + v@[i].repo_name@,
                ),
            )
        } else {
            None
        },
        ViewData::Contributors(v) => if 0 <= i < v@.len() {
            Some((DrillTarget::Contributor(v@[i].username), v@[i].username@))
        } else {
            None
        },
        ViewData::OrgDetail(o) => if 0 <= i < o.repos@.len() {
            Some(
                (
                    DrillTarget::Repo(o.repos@[i].org_name, o.repos@[i].repo_name),
                    o.org_name@ + "/"@ + o.repos@[i].repo_name@,
                ),
            )
        } else {
            None
        },
        ViewData::RepoDetail(r) => if 0 <= i < r.contributors@.len() {
            Some((DrillTarget::Contributor(r.contributors@[i].username), r.contributors@[i].username@))
        } else {
            None
        },
        _ => None,
    }
}

/// `complete_load`: the rows read are shown sorted by the current field and
/// order, with the selection on the first row.
pub open spec fn load_step(old: App, rows: ViewData, new: App) -> bool {
    &&& sorted_from(new.data, rows, old.sort_field, old.sort_order)
    &&& new == (App { data: new.data, selected_index: 0, ..old })
}

/// Re-sorting shown rows by the same field, in whichever order, shows what
/// sorting the rows as read gives.
pub proof fn lemma_resort_view(
    rows: ViewData,
    first: ViewData,
    second: ViewData,
    field: SortField,
    first_order: SortOrder,
    second_order: SortOrder,
)
    requires
        sorted_from(first, rows, field, first_order),
        sorted_from(second, first, field, second_order),
    ensures
        sorted_from(second, rows, field, second_order),
{
    match rows {
        ViewData::Orgs(v) => lemma_resort(v@, field, first_order, second_order),
        ViewData::Repos(v) => lemma_resort(v@, field, first_order, second_order),
        ViewData::Contributors(v) => lemma_resort(v@, field, first_order, second_order),
        ViewData::OrgDetail(d) => lemma_resort(d.repos@, field, first_order, second_order),
        ViewData::RepoDetail(d) => lemma_resort(d.contributors@, field, first_order, second_order),
        ViewData::ContributorDetail(d) => lemma_resort(d.contributions@, field, first_order, second_order),
        ViewData::Loading => {},
        ViewData::Error(_) => {},
    }
}

/// Sorting the shown rows again by the same field and order changes
/// nothing: they stay sorted exactly as after the first sort.
pub proof fn lemma_sort_view_idempotent(
    rows: ViewData,
    once: ViewData,
    twice: ViewData,
    field: SortField,
    order: SortOrder,
)
    requires
        sorted_from(once, rows, field, order),
        sorted_from(twice, once, field, order),
    ensures
        sorted_from(twice, rows, field, order),
{
    lemma_resort_view(rows, once, twice, field, order, order);
}

/// Toggling the order twice brings the rows back to the order they were
/// shown in.
pub proof fn lemma_toggle_view_twice(
    rows: ViewData,
    shown: ViewData,
    toggled: ViewData,
    back: ViewData,
    field: SortField,
    order: SortOrder,
)
    requires
        sorted_from(shown, rows, field, order),
        sorted_from(toggled, shown, field, flipped(order)),
        sorted_from(back, toggled, field, flipped(flipped(order))),
    ensures
        sorted_from(back, rows, field, order),
{
    assert(flipped(flipped(order)) == order);
    lemma_resort_view(rows, shown, toggled, field, order, flipped(order));
    lemma_resort_view(rows, toggled, back, field, flipped(order), order);
}

/// Drilling down and then navigating back returns to the view drilled
/// from, showing the entity it showed, and reads that view's rows again
/// from the snapshot selected when going back, whatever happened in between
/// that left the history alone (a switch of snapshot, a load): what is then
/// shown is that read, not rows kept from before.
pub proof fn lemma_drill_down_then_back(
    start: App,
    drilled: App,
    q1: Option<Query>,
    between: App,
    back: App,
    q2: Option<Query>,
    rows: ViewData,
    shown: App,
)
    requires
        drill_down_step(start, drilled, q1),
        q1 is Some,
        between.view_history@ == drilled.view_history@,
        back_step(between, back, q2),
        load_step(back, rows, shown),
    ensures
        back.current_view == start.current_view,
        shown.current_view == start.current_view,
        shown.detail_subject == start.detail_subject,
        shown.view_history@ == start.view_history@,
        q2 == reload_query(start.current_view, between.current_scrape, start.detail_subject),
        is_list_view(start.current_view) && between.current_scrape is Some ==> q2 is Some,
        sorted_from(shown.data, rows, between.sort_field, between.sort_order),
{
}

/// `refresh_current_view_data`: with no snapshot selected the view shows
/// an error; a list view asks for its rows; any other view is re-sorted in
/// place.
pub open spec fn refresh_step(old: App, new: App, q: Option<Query>) -> bool {
    match old.current_scrape {
        None => {
            &&& q is None
            &&& new == (App { data: new.data, ..old })
            &&& new.data matches ViewData::Error(m) && m@ == "No scrape selected"@
        },
        Some(id) => if is_list_view(old.current_view) {
            q == list_query(old.current_view, id) && new == old
        } else {
            q is None && sorted_from(new.data, old.data, old.sort_field, old.sort_order) && new == (App {
                data: new.data,
                selected_index: 0,
                ..old
            })
        },
    }
}

/// `switch_view_with_data`.
pub open spec fn switch_step(old: App, view: View, new: App, q: Option<Query>) -> bool {
    if old.current_view == view {
        new == old && q is None
    } else {
        refresh_step(
            App { current_view: view, selected_index: 0, data: ViewData::Loading, ..old },
            new,
            q,
        )
    }
}

/// `select_current_scrape`: the snapshot under the picker's selection
/// becomes the current one, shown from its organization list.
pub open spec fn select_step(old: App, new: App, q: Option<Query>) -> bool {
    if old.scrape_selected_index < old.scrapes@.len() {
        refresh_step(
            App {
                current_scrape: Some(old.scrapes@[old.scrape_selected_index as int].id),
                current_view: View::Org,
                selected_index: 0,
                ..old
            },
            new,
            q,
        )
    } else {
        new == old && q is None
    }
}

/// `drill_down`: refused while a collection runs, with no snapshot, or with
/// no row under the selection; otherwise the current view is pushed with
/// the row's key, and the row's detail view opens, waiting for its rows.
pub open spec fn drill_down_step(old: App, new: App, q: Option<Query>) -> bool {
    let choice = drill_choice(old.data, old.selected_index as int);
    if old.is_scraping || old.current_scrape is None || choice is None {
        new == old && q is None
    } else {
        let t = choice->Some_0.0;
        let context = choice->Some_0.1;
        let pushed = new.view_history@.last();
        &&& q == Some(target_query(old.current_scrape->Some_0, t))
        &&& new.view_history@.drop_last() == old.view_history@
        &&& new.view_history@.len() == old.view_history@.len() + 1
        &&& pushed.view == old.current_view
        &&& pushed.context@ == context
        &&& pushed.subject == old.detail_subject
        &&& new == (App {
            current_view: detail_view_of(t),
            selected_index: 0,
            data: ViewData::Loading,
            view_history: new.view_history,
            detail_subject: Some(t),
            ..old
        })
    }
}

/// `navigate_back`: nothing with an empty history; otherwise the last view
/// left comes back, waiting for its rows to be read again from the
/// snapshot selected now.
pub open spec fn back_step(old: App, new: App, q: Option<Query>) -> bool {
    if old.view_history@.len() == 0 {
        new == old && q is None
    } else {
        let e = old.view_history@.last();
        &&& new.view_history@ == old.view_history@.drop_last()
        &&& q == reload_query(e.view, old.current_scrape, e.subject)
        &&& (if old.current_scrape is None && is_list_view(e.view) {
            new.data matches ViewData::Error(m) && m@ == "No scrape selected"@
        } else {
            new.data is Loading
        })
        &&& new == (App {
            current_view: e.view,
            detail_subject: e.subject,
            selected_index: 0,
            data: new.data,
            view_history: new.view_history,
            ..old
        })
    }
}

/// `org/repo`: the natural key of a repository.
fn joined_key(org: &String, repo: &String) -> (r: String)
    ensures
        r@ == org@ + "/"@ + repo@,
{
    let mut key = org.clone();
    key.append("/");
    key.append(repo.as_str());
    key
}

/// The read that fills the detail view of `t` for snapshot `id`.
fn query_for(id: i64, t: &DrillTarget) -> (q: Query)
    ensures
        q == target_query(id, *t),
{
    match t {
        DrillTarget::Org(o) => Query::OrgDetail(id, o.clone()),
        DrillTarget::Repo(o, r) => Query::RepoDetail(id, o.clone(), r.clone()),
        DrillTarget::Contributor(u) => Query::ContributorDetail(id, u.clone()),
    }
}

fn reload_query_for(view: View, scrape: Option<i64>, subject: &Option<DrillTarget>) -> (q: Option<Query>)
    ensures
        q == reload_query(view, scrape, *subject),
{
    match scrape {
        None => None,
        Some(id) => match view {
            View::Org => Some(Query::OrgStats(id)),
            View::Repo => Some(Query::RepoStats(id)),
            View::Contributors => Some(Query::ContributorStats(id)),
            View::ScrapeSelection => None,
            _ => match subject {
                Some(t) => Some(query_for(id, t)),
                None => None,
            },
        },
    }
}

impl Default for App {
    fn default() -> (r: Self)
        ensures
            r.current_view == View::Org,
            r.current_scrape is None,
            r.scrapes@.len() == 0,
            r.data is Loading,
            r.sort_order == SortOrder::Descending,
            r.sort_field == SortField::Commits,
            r.selected_index == 0,
            r.scrape_selected_index == 0,
            !r.should_quit,
            !r.is_scraping,
            r.scraping_error is None,
            r.pending_view_switch is None,
            !r.start_scraping_requested,
            !r.drill_down_requested,
            !r.navigate_back_requested,
            r.view_history@.len() == 0,
            r.detail_subject is None,
    {
        App {
            current_view: View::Org,
            current_scrape: None,
            scrapes: Vec::new(),
            data: ViewData::Loading,
            sort_order: SortOrder::Descending,
            sort_field: SortField::Commits,
            selected_index: 0,
            scrape_selected_index: 0,
            should_quit: false,
            is_scraping: false,
            scraping_error: None,
            pending_view_switch: None,
            start_scraping_requested: false,
            drill_down_requested: false,
            navigate_back_requested: false,
            view_history: Vec::new(),
            detail_subject: None,
        }
    }
}

impl App {
    /// The starting state: organization list, sorted by commits, descending,
    /// nothing loaded yet.
    pub fn new() -> (r: Self)
        ensures
            r.current_view == View::Org,
            r.current_scrape is None,
            r.scrapes@.len() == 0,
            r.data is Loading,
            r.sort_order == SortOrder::Descending,
            r.sort_field == SortField::Commits,
            r.selected_index == 0,
            r.scrape_selected_index == 0,
            !r.should_quit,
            !r.is_scraping,
            r.scraping_error is None,
            r.pending_view_switch is None,
            !r.start_scraping_requested,
            !r.drill_down_requested,
            !r.navigate_back_requested,
            r.view_history@.len() == 0,
            r.detail_subject is None,
    {
        Self::default()
    }

    pub fn quit(&mut self)
        ensures
            *final(self) == (App { should_quit: true, ..*old(self) }),
    {
        self.should_quit = true;
    }

    /// Switches to `view` with nothing loaded, unless it is the current one.
    pub fn switch_view(&mut self, view: View)
        ensures
            old(self).current_view == view ==> *final(self) == *old(self),
            old(self).current_view != view ==> *final(self) == (App {
                current_view: view,
                selected_index: 0,
                data: ViewData::Loading,
                ..*old(self)
            }),
    {
        if self.current_view != view {
            self.current_view = view;
            self.selected_index = 0;
            self.data = ViewData::Loading;
        }
    }

    /// Asks for a switch to `view` at the next turn of the loop, unless it is
    /// the current one.
    pub fn request_view_switch(&mut self, view: View)
        ensures
            old(self).current_view == view ==> *final(self) == *old(self),
            old(self).current_view != view ==> *final(self) == (App {
                pending_view_switch: Some(view),
                ..*old(self)
            }),
    {
        if self.current_view != view {
            self.pending_view_switch = Some(view);
        }
    }

    fn sort_orgs_static(orgs: &mut Vec<OrgStats>, sort_field: SortField, sort_order: SortOrder)
        ensures
            final(orgs)@ == sort_rows(old(orgs)@, sort_field, sort_order),
    {
        sort_rows_by(orgs, sort_field, sort_order);
    }

    fn sort_repos_static(repos: &mut Vec<RepoStats>, sort_field: SortField, sort_order: SortOrder)
        ensures
            final(repos)@ == sort_rows(old(repos)@, sort_field, sort_order),
    {
        sort_rows_by(repos, sort_field, sort_order);
    }

    fn sort_contributors_static(
        contributors: &mut Vec<ContributorStats>,
        sort_field: SortField,
        sort_order: SortOrder,
    )
        ensures
            final(contributors)@ == sort_rows(old(contributors)@, sort_field, sort_order),
    {
        sort_rows_by(contributors, sort_field, sort_order);
    }

    fn sort_repo_contributors_static(
        contributors: &mut Vec<RepoContributor>,
        sort_field: SortField,
        sort_order: SortOrder,
    )
        ensures
            final(contributors)@ == sort_rows(old(contributors)@, sort_field, sort_order),
    {
        sort_rows_by(contributors, sort_field, sort_order);
    }

    fn sort_contributor_repos_static(
        contributions: &mut Vec<ContributorRepo>,
        sort_field: SortField,
        sort_order: SortOrder,
    )
        ensures
            final(contributions)@ == sort_rows(old(contributions)@, sort_field, sort_order),
    {
        sort_rows_by(contributions, sort_field, sort_order);
    }

    /// Sorts the current rows by the current field and order, and puts the
    /// selection on the first row.
    pub fn apply_sort(&mut self)
        ensures
            sorted_from(final(self).data, old(self).data, old(self).sort_field, old(self).sort_order),
            *final(self) == (App { data: final(self).data, selected_index: 0, ..*old(self) }),
    {
        let sort_field = self.sort_field;
        let sort_order = self.sort_order;
        let mut data = ViewData::Loading;
        core::mem::swap(&mut self.data, &mut data);
        let sorted = match data {
            ViewData::Orgs(orgs) => {
                let mut orgs = orgs;
                Self::sort_orgs_static(&mut orgs, sort_field, sort_order);
                ViewData::Orgs(orgs)
            },
            ViewData::Repos(repos) => {
                let mut repos = repos;
                Self::sort_repos_static(&mut repos, sort_field, sort_order);
                ViewData::Repos(repos)
            },
            ViewData::Contributors(contributors) => {
                let mut contributors = contributors;
                Self::sort_contributors_static(&mut contributors, sort_field, sort_order);
                ViewData::Contributors(contributors)
            },
            ViewData::OrgDetail(detail) => {
                let mut detail = detail;
                Self::sort_repos_static(&mut detail.repos, sort_field, sort_order);
                ViewData::OrgDetail(detail)
            },
            ViewData::RepoDetail(detail) => {
                let mut detail = detail;
                Self::sort_repo_contributors_static(&mut detail.contributors, sort_field, sort_order);
                ViewData::RepoDetail(detail)
            },
            ViewData::ContributorDetail(detail) => {
                let mut detail = detail;
                Self::sort_contributor_repos_static(&mut detail.contributions, sort_field, sort_order);
                ViewData::ContributorDetail(detail)
            },
            other => other,
        };
        self.data = sorted;
        self.selected_index = 0;
    }

    /// Flips the sort order and re-sorts.
    pub fn toggle_sort_order(&mut self)
        ensures
            final(self).sort_order == flipped(old(self).sort_order),
            sorted_from(final(self).data, old(self).data, old(self).sort_field, flipped(old(self).sort_order)),
            *final(self) == (App {
                data: final(self).data,
                sort_order: flipped(old(self).sort_order),
                selected_index: 0,
                ..*old(self)
            }),
    {
        self.sort_order = match self.sort_order {
            SortOrder::Ascending => SortOrder::Descending,
            SortOrder::Descending => SortOrder::Ascending,
        };
        self.apply_sort();
    }

    /// Sorts by `field`: choosing the current field again flips the order,
    /// choosing another one sorts by it in descending order.
    pub fn set_sort_field(&mut self, field: SortField)
        ensures
            final(self).sort_field == field,
            final(self).sort_order == if old(self).sort_field == field {
                flipped(old(self).sort_order)
            } else {
                SortOrder::Descending
            },
            sorted_from(final(self).data, old(self).data, field, final(self).sort_order),
            *final(self) == (App {
                data: final(self).data,
                sort_field: field,
                sort_order: final(self).sort_order,
                selected_index: 0,
                ..*old(self)
            }),
    {
        if self.sort_field != field {
            self.sort_field = field;
            self.sort_order = SortOrder::Descending;
            self.apply_sort();
        } else {
            self.toggle_sort_order();
        }
    }

    /// The number of rows the current view shows.
    pub fn get_item_count(&self) -> (r: usize)
        ensures
            r == row_count(self.data),
    {
        match &self.data {
            ViewData::Orgs(orgs) => orgs.len(),
            ViewData::Repos(repos) => repos.len(),
            ViewData::Contributors(contributors) => contributors.len(),
            ViewData::OrgDetail(detail) => detail.repos.len(),
            ViewData::RepoDetail(detail) => detail.contributors.len(),
            ViewData::ContributorDetail(detail) => detail.contributions.len(),
            ViewData::Loading => 0,
            ViewData::Error(_) => 0,
        }
    }

    /// Moves the selection one row up, from the first row to the last.
    pub fn move_selection_up(&mut self)
        ensures
            row_count(old(self).data) == 0 ==> *final(self) == *old(self),
            row_count(old(self).data) > 0 ==> *final(self) == (App {
                selected_index: (if old(self).selected_index == 0 {
                    row_count(old(self).data) - 1
                } else {
                    old(self).selected_index - 1
                }) as usize,
                ..*old(self)
            }),
    {
        let item_count = self.get_item_count();
        if item_count > 0 {
            self.selected_index = if self.selected_index == 0 {
                item_count - 1
            } else {
                self.selected_index - 1
            };
        }
    }

    /// Moves the selection one row down, from the last row to the first.
    pub fn move_selection_down(&mut self)
        ensures
            row_count(old(self).data) == 0 ==> *final(self) == *old(self),
            row_count(old(self).data) > 0 ==> *final(self) == (App {
                selected_index: ((old(self).selected_index + 1) % (row_count(old(self).data) as int)) as usize,
                ..*old(self)
            }),
    {
        let item_count = self.get_item_count();
        if item_count > 0 {
            let here = self.selected_index % item_count;
            self.selected_index = if here + 1 == item_count {
                0
            } else {
                here + 1
            };
            proof {
                let s = old(self).selected_index as int;
                let c = item_count as int;
                assert((s + 1) % c == if (s % c) + 1 == c { 0 } else { (s % c) + 1 }) by {
                    vstd::arithmetic::div_mod::lemma_add_mod_noop(s, 1, c);
                    vstd::arithmetic::div_mod::lemma_mod_bound(s, c);
                    if c > 1 {
                        vstd::arithmetic::div_mod::lemma_small_mod(1, c as nat);
                    } else {
                        vstd::arithmetic::div_mod::lemma_mod_self_0(1);
                    }
                    if (s % c) + 1 < c {
                        vstd::arithmetic::div_mod::lemma_small_mod(((s % c) + 1) as nat, c as nat);
                    } else {
                        vstd::arithmetic::div_mod::lemma_mod_self_0(c);
                    }
                }
            }
        }
    }

    /// Asks for the rows of the current view; see `refresh_step`.
    pub fn refresh_current_view_data(&mut self) -> (q: Option<Query>)
        ensures
            refresh_step(*old(self), *final(self), q),
    {
        match self.current_scrape {
            Some(scrape_id) => match self.current_view {
                View::Org => Some(Query::OrgStats(scrape_id)),
                View::Repo => Some(Query::RepoStats(scrape_id)),
                View::Contributors => Some(Query::ContributorStats(scrape_id)),
                _ => {
                    self.apply_sort();
                    None
                },
            },
            None => {
                self.data = ViewData::Error("No scrape selected".to_string());
                None
            },
        }
    }

    /// Switches to `view` and asks for its rows, unless it is the current
    /// view.
    pub fn switch_view_with_data(&mut self, view: View) -> (q: Option<Query>)
        ensures
            switch_step(*old(self), view, *final(self), q),
    {
        if self.current_view != view {
            self.current_view = view;
            self.selected_index = 0;
            self.data = ViewData::Loading;
            self.refresh_current_view_data()
        } else {
            None
        }
    }

    /// Makes the snapshot under the picker's selection the current one; see
    /// `select_step`.
    pub fn select_current_scrape(&mut self) -> (q: Option<Query>)
        ensures
            select_step(*old(self), *final(self), q),
    {
        if self.scrape_selected_index < self.scrapes.len() {
            let id = self.scrapes[self.scrape_selected_index].id;
            self.current_scrape = Some(id);
            self.current_view = View::Org;
            self.selected_index = 0;
            self.refresh_current_view_data()
        } else {
            None
        }
    }

    /// Carries out a requested view switch: leaving the snapshot picker
    /// selects the snapshot under its selection.
    pub fn handle_pending_view_switch(&mut self) -> (q: Option<Query>)
        ensures
            match old(self).pending_view_switch {
                None => *final(self) == *old(self) && q is None,
                Some(v) => {
                    let mid = App { pending_view_switch: None, ..*old(self) };
                    if old(self).current_view == View::ScrapeSelection && v != View::ScrapeSelection {
                        select_step(mid, *final(self), q)
                    } else {
                        switch_step(mid, v, *final(self), q)
                    }
                },
            },
    {
        let pending = self.pending_view_switch;
        match pending {
            None => None,
            Some(view) => {
                self.pending_view_switch = None;
                if self.current_view == View::ScrapeSelection && view != View::ScrapeSelection {
                    self.select_current_scrape()
                } else {
                    self.switch_view_with_data(view)
                }
            },
        }
    }

    /// Shows rows that were read for the current view, sorted by the current
    /// field and order, with the selection on the first row.
    pub fn complete_load(&mut self, data: ViewData)
        ensures
            load_step(*old(self), data, *final(self)),
    {
        self.data = data;
        self.apply_sort();
    }

    /// Shows a failed read in place of the current view's rows.
    pub fn fail_load(&mut self, message: String)
        ensures
            *final(self) == (App { data: ViewData::Error(message), ..*old(self) }),
    {
        self.data = ViewData::Error(message);
    }

    /// Drills into the selected row; see `drill_down_step`.
    pub fn drill_down(&mut self) -> (q: Option<Query>)
        ensures
            drill_down_step(*old(self), *final(self), q),
    {
        if self.is_scraping {
            return None;
        }
        let scrape_id = match self.current_scrape {
            Some(id) => id,
            None => return None,
        };
        let i = self.selected_index;
        let drill_info: Option<(DrillTarget, String)> = match &self.data {
            ViewData::Orgs(orgs) => if i < orgs.len() {
                let org = &orgs[i];
                Some((DrillTarget::Org(org.name.clone()), org.name.clone()))
            } else {
                None
            },
            ViewData::Repos(repos) => if i < repos.len() {
                let repo = &repos[i];
                Some(
                    (
                        DrillTarget::Repo(repo.org_name.clone(), repo.repo_name.clone()),
                        joined_key(&repo.org_name, &repo.repo_name),
                    ),
                )
            } else {
                None
            },
            ViewData::Contributors(contributors) => if i < contributors.len() {
                let contributor = &contributors[i];
                Some(
                    (
                        DrillTarget::Contributor(contributor.username.clone()),
                        contributor.username.clone(),
                    ),
                )
            } else {
                None
            },
            ViewData::OrgDetail(detail) => if i < detail.repos.len() {
                let repo = &detail.repos[i];
                Some(
                    (
                        DrillTarget::Repo(repo.org_name.clone(), repo.repo_name.clone()),
                        joined_key(&detail.org_name, &repo.repo_name),
                    ),
                )
            } else {
                None
            },
            ViewData::RepoDetail(detail) => if i < detail.contributors.len() {
                let contributor = &detail.contributors[i];
                Some(
                    (
                        DrillTarget::Contributor(contributor.username.clone()),
                        contributor.username.clone(),
                    ),
                )
            } else {
                None
            },
            _ => None,
        };
        match drill_info {
            None => None,
            Some((target, context)) => {
                let query = query_for(scrape_id, &target);
                let view = match &target {
                    DrillTarget::Org(_) => View::OrgDetail,
                    DrillTarget::Repo(_, _) => View::RepoDetail,
                    DrillTarget::Contributor(_) => View::ContributorDetail,
                };
                let mut subject = Some(target);
                core::mem::swap(&mut self.detail_subject, &mut subject);
                self.view_history.push(HistoryEntry { view: self.current_view, context, subject });
                self.current_view = view;
                self.selected_index = 0;
                self.data = ViewData::Loading;
                proof {
                    assert(self.view_history@.drop_last() =~= old(self).view_history@);
                }
                Some(query)
            },
        }
    }

    /// Goes back to the last view left by drilling down; see `back_step`.
    pub fn navigate_back(&mut self) -> (q: Option<Query>)
        ensures
            back_step(*old(self), *final(self), q),
    {
        if self.view_history.len() == 0 {
            return None;
        }
        match self.view_history.pop() {
            None => None,
            Some(entry) => {
                let HistoryEntry { view, context: _, subject } = entry;
                let query = reload_query_for(view, self.current_scrape, &subject);
                self.current_view = view;
                self.detail_subject = subject;
                self.selected_index = 0;
                if self.current_scrape.is_none() && (view == View::Org || view == View::Repo || view
                    == View::Contributors) {
                    self.data = ViewData::Error("No scrape selected".to_string());
                } else {
                    self.data = ViewData::Loading;
                }
                query
            },
        }
    }

    /// Asks for the selected row to be drilled into at the next turn of the
    /// loop.
    pub fn request_drill_down(&mut self)
        ensures
            *final(self) == (App { drill_down_requested: true, ..*old(self) }),
    {
        self.drill_down_requested = true;
    }

    /// Asks for back navigation at the next turn of the loop.
    pub fn request_navigate_back(&mut self)
        ensures
            *final(self) == (App { navigate_back_requested: true, ..*old(self) }),
    {
        self.navigate_back_requested = true;
    }

    /// Carries out one requested navigation: a drill-down first, else a
    /// back navigation.
    pub fn handle_navigation_requests(&mut self) -> (q: Option<Query>)
        ensures
            old(self).drill_down_requested ==> drill_down_step(
                App { drill_down_requested: false, ..*old(self) },
                *final(self),
                q,
            ),
            !old(self).drill_down_requested && old(self).navigate_back_requested ==> back_step(
                App { navigate_back_requested: false, ..*old(self) },
                *final(self),
                q,
            ),
            !old(self).drill_down_requested && !old(self).navigate_back_requested ==> *final(self)
                == *old(self) && q is None,
    {
        if self.drill_down_requested {
            self.drill_down_requested = false;
            self.drill_down()
        } else if self.navigate_back_requested {
            self.navigate_back_requested = false;
            self.navigate_back()
        } else {
            None
        }
    }

    /// Asks for a collection run at the next turn of the loop; refused while
    /// one is in progress.
    pub fn request_scraping(&mut self)
        ensures
            old(self).is_scraping ==> *final(self) == *old(self),
            !old(self).is_scraping ==> *final(self) == (App {
                start_scraping_requested: true,
                ..*old(self)
            }),
    {
        if !self.is_scraping {
            self.start_scraping_requested = true;
        }
    }

    /// Marks a collection run as in progress.
    pub fn start_scraping(&mut self)
        ensures
            *final(self) == (App {
                is_scraping: true,
                scraping_error: None,
                start_scraping_requested: false,
                ..*old(self)
            }),
    {
        self.is_scraping = true;
        self.scraping_error = None;
        self.start_scraping_requested = false;
    }

    /// Marks the collection run as finished.
    pub fn finish_scraping_success(&mut self)
        ensures
            *final(self) == (App { is_scraping: false, scraping_error: None, ..*old(self) }),
    {
        self.is_scraping = false;
        self.scraping_error = None;
    }

    /// Marks the collection run as failed, with the message to show.
    pub fn finish_scraping_error(&mut self, error: String)
        ensures
            *final(self) == (App { is_scraping: false, scraping_error: Some(error), ..*old(self) }),
    {
        self.is_scraping = false;
        self.scraping_error = Some(error);
    }

    /// Starts a requested collection run, unless one is in progress, in
    /// which case the request is dropped. Returns whether the run is to be
    /// made now.
    pub fn handle_scraping_request(&mut self) -> (start: bool)
        ensures
            start == (old(self).start_scraping_requested && !old(self).is_scraping),
            start ==> *final(self) == (App {
                is_scraping: true,
                scraping_error: None,
                start_scraping_requested: false,
                ..*old(self)
            }),
            !start ==> *final(self) == (App { start_scraping_requested: false, ..*old(self) }),
    {
        if self.start_scraping_requested && !self.is_scraping {
            self.start_scraping();
            true
        } else {
            self.start_scraping_requested = false;
            false
        }
    }

    /// After a successful run: takes the reloaded snapshot list, newest
    /// first, and shows the newest snapshot's organization list.
    pub fn refresh_after_scrape(&mut self, scrapes: Vec<ScrapeInfo>) -> (q: Option<Query>)
        ensures
            scrapes@.len() == 0 ==> *final(self) == (App { scrapes: scrapes, ..*old(self) }) && q is None,
            scrapes@.len() > 0 ==> refresh_step(
                App {
                    scrapes: scrapes,
                    current_scrape: Some(scrapes@[0].id),
                    current_view: View::Org,
                    selected_index: 0,
                    scrape_selected_index: 0,
                    ..*old(self)
                },
                *final(self),
                q,
            ),
    {
        if scrapes.len() > 0 {
            let latest = scrapes[0].id;
            self.scrapes = scrapes;
            self.current_scrape = Some(latest);
            self.current_view = View::Org;
            self.selected_index = 0;
            self.scrape_selected_index = 0;
            self.refresh_current_view_data()
        } else {
            self.scrapes = scrapes;
            None
        }
    }

    /// The starting state over the stored snapshots, newest first, with
    /// `latest` the newest one's id: its organization list is asked for and
    /// the picker points at it. With no snapshot the view shows an error.
    pub fn new_with_data(scrapes: Vec<ScrapeInfo>, latest: Option<i64>) -> (r: (App, Option<Query>))
        ensures
            r.0.scrapes == scrapes,
            r.0.current_scrape == latest,
            r.0.current_view == View::Org,
            r.0.sort_order == SortOrder::Descending,
            r.0.sort_field == SortField::Commits,
            r.0.selected_index == 0,
            !r.0.should_quit,
            !r.0.is_scraping,
            r.0.scraping_error is None,
            r.0.pending_view_switch is None,
            !r.0.start_scraping_requested,
            !r.0.drill_down_requested,
            !r.0.navigate_back_requested,
            r.0.view_history@.len() == 0,
            r.0.detail_subject is None,
            match latest {
                None => {
                    &&& r.1 is None
                    &&& r.0.scrape_selected_index == 0
                    &&& r.0.data matches ViewData::Error(m) && m@
                        == "No scrape data available. Run a scrape first."@
                },
                Some(id) => {
                    &&& r.1 == Some(Query::OrgStats(id))
                    &&& r.0.data is Loading
                    &&& if exists|k: int| 0 <= k < scrapes@.len() && #[trigger] scrapes@[k].id == id {
                        let k = r.0.scrape_selected_index as int;
                        &&& 0 <= k < scrapes@.len()
                        &&& scrapes@[k].id == id
                        &&& forall|j: int| 0 <= j < k ==> #[trigger] scrapes@[j].id != id
                    } else {
                        r.0.scrape_selected_index == 0
                    }
                },
            },
    {
        let mut app = Self::default();
        match latest {
            Some(id) => {
                let mut k: usize = 0;
                while k < scrapes.len() && scrapes[k].id != id
                    invariant
                        k <= scrapes@.len(),
                        forall|j: int| 0 <= j < k ==> #[trigger] scrapes@[j].id != id,
                    decreases scrapes@.len() - k,
                {
                    k = k + 1;
                }
                if k < scrapes.len() {
                    app.scrape_selected_index = k;
                }
                app.scrapes = scrapes;
                app.current_scrape = Some(id);
                (app, Some(Query::OrgStats(id)))
            },
            None => {
                app.scrapes = scrapes;
                app.data = ViewData::Error("No scrape data available. Run a scrape first.".to_string());
                (app, None)
            },
        }
    }

    /// Moves the snapshot picker's selection one up, from the first to the
    /// last.
    pub fn move_scrape_selection_up(&mut self)
        ensures
            old(self).scrapes@.len() == 0 ==> *final(self) == *old(self),
            old(self).scrapes@.len() > 0 ==> *final(self) == (App {
                scrape_selected_index: (if old(self).scrape_selected_index == 0 {
                    old(self).scrapes@.len() - 1
                } else {
                    old(self).scrape_selected_index - 1
                }) as usize,
                ..*old(self)
            }),
    {
        if !self.scrapes.is_empty() {
            self.scrape_selected_index = if self.scrape_selected_index == 0 {
                self.scrapes.len() - 1
            } else {
                self.scrape_selected_index - 1
            };
        }
    }

    /// Moves the snapshot picker's selection one down, from the last to the
    /// first.
    pub fn move_scrape_selection_down(&mut self)
        ensures
            old(self).scrapes@.len() == 0 ==> *final(self) == *old(self),
            old(self).scrapes@.len() > 0 ==> *final(self) == (App {
                scrape_selected_index: ((old(self).scrape_selected_index + 1) % (
                old(self).scrapes@.len() as int)) as usize,
                ..*old(self)
            }),
    {
        let n = self.scrapes.len();
        if n > 0 {
            let here = self.scrape_selected_index % n;
            self.scrape_selected_index = if here + 1 == n {
                0
            } else {
                here + 1
            };
            proof {
                let s = old(self).scrape_selected_index as int;
                let c = n as int;
                assert((s + 1) % c == if (s % c) + 1 == c { 0 } else { (s % c) + 1 }) by {
                    vstd::arithmetic::div_mod::lemma_add_mod_noop(s, 1, c);
                    vstd::arithmetic::div_mod::lemma_mod_bound(s, c);
                    if c > 1 {
                        vstd::arithmetic::div_mod::lemma_small_mod(1, c as nat);
                    } else {
                        vstd::arithmetic::div_mod::lemma_mod_self_0(1);
                    }
                    if (s % c) + 1 < c {
                        vstd::arithmetic::div_mod::lemma_small_mod(((s % c) + 1) as nat, c as nat);
                    } else {
                        vstd::arithmetic::div_mod::lemma_mod_self_0(c);
                    }
                }
            }
        }
    }
}

} // verus!
