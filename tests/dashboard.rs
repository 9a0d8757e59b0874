use org_pulse::events::{handle_key_event, Key};
use org_pulse::sorting::text_less;
use org_pulse::state::{App, DrillTarget, Query, SortField, SortOrder, View};
use org_pulse::stats::{OrgDetail, OrgStats, RepoStats, ScrapeInfo, ViewData};
use org_pulse::timestamp::Timestamp;

fn org(name: &str, commits: i64, lines: i64, repos: i64) -> OrgStats {
    OrgStats {
        name: name.to_string(),
        total_commits: commits,
        total_lines: lines,
        repo_count: repos,
        contributor_count: 1,
    }
}

fn repo(org: &str, name: &str, commits: i64) -> RepoStats {
    RepoStats {
        org_name: org.to_string(),
        repo_name: name.to_string(),
        commits,
        lines: 0,
        prs: 0,
        contributor_count: 0,
    }
}

fn scrape_info(id: i64) -> ScrapeInfo {
    ScrapeInfo {
        id,
        start_dt: Timestamp { seconds: id * 100, nanos: 0 },
        end_dt: Timestamp { seconds: id * 100 + 50, nanos: 0 },
        repo_count: 1,
    }
}

fn org_names(app: &App) -> Vec<String> {
    match &app.data {
        ViewData::Orgs(v) => v.iter().map(|o| o.name.clone()).collect(),
        _ => panic!("organization list expected"),
    }
}

fn app_with_orgs() -> App {
    let mut app = App::new();
    app.current_scrape = Some(1);
    app.complete_load(ViewData::Orgs(vec![
        org("beta", 5, 10, 1),
        org("alpha", 9, 1, 2),
        org("gamma", 5, 30, 3),
        org("delta", 1, 20, 1),
    ]));
    app
}

#[test]
fn load_sorts_by_commits_descending() {
    let app = app_with_orgs();
    assert_eq!(org_names(&app), vec!["alpha", "beta", "gamma", "delta"]);
    assert_eq!(app.selected_index, 0);
}

#[test]
fn same_field_flips_then_other_field_resets() {
    let mut app = app_with_orgs();
    assert_eq!(app.sort_field, SortField::Commits);
    assert_eq!(app.sort_order, SortOrder::Descending);
    app.set_sort_field(SortField::Commits);
    assert_eq!(app.sort_order, SortOrder::Ascending);
    assert_eq!(org_names(&app), vec!["delta", "beta", "gamma", "alpha"]);
    app.set_sort_field(SortField::Lines);
    assert_eq!(app.sort_field, SortField::Lines);
    assert_eq!(app.sort_order, SortOrder::Descending);
    assert_eq!(org_names(&app), vec!["gamma", "delta", "beta", "alpha"]);
}

#[test]
fn sorting_twice_changes_nothing() {
    let mut app = app_with_orgs();
    app.set_sort_field(SortField::Name);
    let once = org_names(&app);
    app.apply_sort();
    assert_eq!(org_names(&app), once);
    assert_eq!(once, vec!["gamma", "delta", "beta", "alpha"]);
}

#[test]
fn toggling_twice_restores_order() {
    let mut app = app_with_orgs();
    let shown = org_names(&app);
    app.toggle_sort_order();
    assert_eq!(org_names(&app), vec!["delta", "beta", "gamma", "alpha"]);
    app.toggle_sort_order();
    assert_eq!(org_names(&app), shown);
}

#[test]
fn selection_wraps_both_ways() {
    let mut app = app_with_orgs();
    app.move_selection_up();
    assert_eq!(app.selected_index, 3);
    app.move_selection_down();
    assert_eq!(app.selected_index, 0);
    app.move_selection_down();
    assert_eq!(app.selected_index, 1);
}

#[test]
fn empty_view_ignores_movement() {
    let mut app = App::new();
    app.move_selection_down();
    app.move_selection_up();
    assert_eq!(app.selected_index, 0);
    assert_eq!(app.get_item_count(), 0);
}

#[test]
fn drill_down_then_back_reloads_from_current_snapshot() {
    let mut app = app_with_orgs();
    app.move_selection_down();
    app.request_drill_down();
    let q = app.handle_navigation_requests();
    match q {
        Some(Query::OrgDetail(1, name)) => assert_eq!(name, "beta"),
        other => panic!("unexpected query {:?}", other),
    }
    assert_eq!(app.current_view, View::OrgDetail);
    assert_eq!(app.view_history.len(), 1);
    assert_eq!(app.view_history[0].view, View::Org);
    assert_eq!(app.view_history[0].context, "beta");
    app.complete_load(ViewData::OrgDetail(OrgDetail {
        org_name: "beta".to_string(),
        repos: vec![repo("beta", "one", 2), repo("beta", "two", 3)],
    }));
    assert_eq!(app.get_item_count(), 2);

    app.current_scrape = Some(2);
    app.request_navigate_back();
    let back = app.handle_navigation_requests();
    assert!(matches!(back, Some(Query::OrgStats(2))));
    assert_eq!(app.current_view, View::Org);
    assert!(matches!(app.data, ViewData::Loading));
    assert!(app.view_history.is_empty());
    app.complete_load(ViewData::Orgs(vec![org("omega", 1, 1, 1)]));
    assert_eq!(org_names(&app), vec!["omega"]);
}

#[test]
fn back_into_detail_view_reloads_its_subject() {
    let mut app = App::new();
    app.current_scrape = Some(4);
    app.current_view = View::Repo;
    app.complete_load(ViewData::Repos(vec![repo("acme", "widgets", 3)]));
    app.request_drill_down();
    match app.handle_navigation_requests() {
        Some(Query::RepoDetail(4, o, r)) => {
            assert_eq!(o, "acme");
            assert_eq!(r, "widgets");
        }
        other => panic!("unexpected query {:?}", other),
    }
    assert_eq!(app.view_history[0].context, "acme/widgets");
    assert!(matches!(&app.detail_subject, Some(DrillTarget::Repo(_, _))));
}

#[test]
fn back_with_empty_history_does_nothing() {
    let mut app = app_with_orgs();
    app.request_navigate_back();
    assert!(app.handle_navigation_requests().is_none());
    assert_eq!(app.current_view, View::Org);
    assert_eq!(app.get_item_count(), 4);
    assert!(!app.navigate_back_requested);
}

#[test]
fn drill_down_refused_while_collecting() {
    let mut app = app_with_orgs();
    app.request_scraping();
    assert!(app.handle_scraping_request());
    assert!(app.is_scraping);
    app.request_drill_down();
    assert!(app.handle_navigation_requests().is_none());
    assert_eq!(app.current_view, View::Org);
    assert!(app.view_history.is_empty());
}

#[test]
fn second_collection_request_is_refused() {
    let mut app = App::new();
    app.request_scraping();
    assert!(app.handle_scraping_request());
    app.request_scraping();
    assert!(!app.start_scraping_requested);
    assert!(!app.handle_scraping_request());
    app.finish_scraping_error("Scrape failed: offline".to_string());
    assert!(!app.is_scraping);
    assert_eq!(app.scraping_error.as_deref(), Some("Scrape failed: offline"));
}

#[test]
fn finished_collection_shows_latest_snapshot() {
    let mut app = app_with_orgs();
    app.current_view = View::Contributors;
    app.start_scraping();
    app.finish_scraping_success();
    let q = app.refresh_after_scrape(vec![scrape_info(9), scrape_info(1)]);
    assert!(matches!(q, Some(Query::OrgStats(9))));
    assert_eq!(app.current_scrape, Some(9));
    assert_eq!(app.current_view, View::Org);
    assert_eq!(app.scrapes.len(), 2);
    assert!(app.scraping_error.is_none());
}

#[test]
fn no_snapshot_selected_is_an_error() {
    let mut app = App::new();
    assert!(app.refresh_current_view_data().is_none());
    match &app.data {
        ViewData::Error(m) => assert_eq!(m, "No scrape selected"),
        _ => panic!("error expected"),
    }
}

#[test]
fn picker_selects_snapshot() {
    let (mut app, q) = App::new_with_data(vec![scrape_info(3), scrape_info(2)], Some(3));
    assert!(matches!(q, Some(Query::OrgStats(3))));
    assert_eq!(app.scrape_selected_index, 0);
    handle_key_event(Key::Char('t'), &mut app);
    assert_eq!(app.pending_view_switch, Some(View::ScrapeSelection));
    assert!(app.handle_pending_view_switch().is_none());
    assert_eq!(app.current_view, View::ScrapeSelection);
    handle_key_event(Key::Down, &mut app);
    assert_eq!(app.scrape_selected_index, 1);
    handle_key_event(Key::Enter, &mut app);
    let q = app.handle_pending_view_switch();
    assert!(matches!(q, Some(Query::OrgStats(2))));
    assert_eq!(app.current_scrape, Some(2));
    assert_eq!(app.current_view, View::Org);
}

#[test]
fn start_without_snapshots_shows_error() {
    let (app, q) = App::new_with_data(Vec::new(), None);
    assert!(q.is_none());
    match &app.data {
        ViewData::Error(m) => assert_eq!(m, "No scrape data available. Run a scrape first."),
        _ => panic!("error expected"),
    }
}

#[test]
fn keys_drive_sorting_and_quitting() {
    let mut app = app_with_orgs();
    handle_key_event(Key::Char('n'), &mut app);
    assert_eq!(app.sort_field, SortField::Name);
    assert_eq!(app.sort_order, SortOrder::Descending);
    handle_key_event(Key::Char('s'), &mut app);
    assert_eq!(app.sort_order, SortOrder::Ascending);
    assert_eq!(org_names(&app), vec!["alpha", "beta", "delta", "gamma"]);
    handle_key_event(Key::Char('R'), &mut app);
    assert_eq!(app.sort_field, SortField::Repos);
    assert_eq!(org_names(&app), vec!["gamma", "alpha", "beta", "delta"]);
    handle_key_event(Key::Char('x'), &mut app);
    assert!(!app.should_quit);
    handle_key_event(Key::Char('q'), &mut app);
    assert!(app.should_quit);
}

#[test]
fn keys_request_navigation() {
    let mut app = app_with_orgs();
    handle_key_event(Key::Enter, &mut app);
    assert!(app.drill_down_requested);
    handle_key_event(Key::Esc, &mut app);
    assert!(app.navigate_back_requested);
    handle_key_event(Key::Char('r'), &mut app);
    assert_eq!(app.pending_view_switch, Some(View::Repo));
    handle_key_event(Key::Char('S'), &mut app);
    assert!(app.start_scraping_requested);
}

#[test]
fn names_order_by_code_point() {
    assert!(text_less("alpha", "beta"));
    assert!(text_less("al", "alpha"));
    assert!(!text_less("alpha", "alpha"));
    assert!(text_less("Zed", "abc"));
    assert!(text_less("zeta", "\u{e9}"));
}

#[test]
fn view_switch_to_same_view_is_ignored() {
    let mut app = app_with_orgs();
    app.request_view_switch(View::Org);
    assert!(app.pending_view_switch.is_none());
    app.switch_view(View::Org);
    assert_eq!(app.get_item_count(), 4);
    app.switch_view(View::Repo);
    assert!(matches!(app.data, ViewData::Loading));
    assert!(matches!(app.switch_view_with_data(View::Contributors), Some(Query::ContributorStats(1))));
    assert!(app.switch_view_with_data(View::Contributors).is_none());
}

#[test]
fn direct_drill_down_and_back() {
    let mut app = app_with_orgs();
    assert!(matches!(app.drill_down(), Some(Query::OrgDetail(1, _))));
    app.current_scrape = Some(5);
    assert!(matches!(app.navigate_back(), Some(Query::OrgStats(5))));
    assert_eq!(app.current_view, View::Org);
    assert!(app.navigate_back().is_none());
}
