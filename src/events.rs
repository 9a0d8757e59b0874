use vstd::prelude::*;
use vstd::view::View as _;
use crate::state::{App, View, SortField, SortOrder, sorted_from};
use crate::stats::row_count;
use crate::sorting::flipped;

verus! {

/// A key press, as the dashboard reads it.
#[derive(Clone, Copy, Debug, PartialEq, Eq, Structural)]
pub enum Key {
    Char(char),
    Esc,
    Up,
    Down,
    Enter,
    Other,
}

/// `request_view_switch`.
pub open spec fn view_switch_requested(old: App, view: View) -> App {
    if old.current_view == view {
        old
    } else {
        App { pending_view_switch: Some(view), ..old }
    }
}

/// `move_selection_up`.
pub open spec fn selection_moved_up(old: App) -> App {
    if row_count(old.data) == 0 {
        old
    } else {
        App {
            selected_index: (if old.selected_index == 0 {
                row_count(old.data) - 1
            } else {
                old.selected_index - 1
            }) as usize,
            ..old
        }
    }
}

/// `move_selection_down`.
pub open spec fn selection_moved_down(old: App) -> App {
    if row_count(old.data) == 0 {
        old
    } else {
        App { selected_index: ((old.selected_index + 1) % (row_count(old.data) as int)) as usize, ..old }
    }
}

/// `move_scrape_selection_up`.
pub open spec fn scrape_selection_moved_up(old: App) -> App {
    if old.scrapes@.len() == 0 {
        old
    } else {
        App {
            scrape_selected_index: (if old.scrape_selected_index == 0 {
                old.scrapes@.len() - 1
            } else {
                old.scrape_selected_index - 1
            }) as usize,
            ..old
        }
    }
}

/// `move_scrape_selection_down`.
pub open spec fn scrape_selection_moved_down(old: App) -> App {
    if old.scrapes@.len() == 0 {
        old
    } else {
        App {
            scrape_selected_index: ((old.scrape_selected_index + 1) % (old.scrapes@.len() as int)) as usize,
            ..old
        }
    }
}

/// `toggle_sort_order`.
pub open spec fn sort_toggled(old: App, new: App) -> bool {
    &&& sorted_from(new.data, old.data, old.sort_field, flipped(old.sort_order))
    &&& new == (App { data: new.data, sort_order: flipped(old.sort_order), selected_index: 0, ..old })
}

/// `set_sort_field`.
pub open spec fn sort_field_set(old: App, field: SortField, new: App) -> bool {
    let order = if old.sort_field == field {
        flipped(old.sort_order)
    } else {
        SortOrder::Descending
    };
    &&& sorted_from(new.data, old.data, field, order)
    &&& new == (App { data: new.data, sort_field: field, sort_order: order, selected_index: 0, ..old })
}

/// The sort field a key selects.
pub open spec fn field_key(c: char) -> Option<SortField> {
    if c == 'n' {
        Some(SortField::Name)
    } else if c == 'c' {
        Some(SortField::Commits)
    } else if c == 'l' {
        Some(SortField::Lines)
    } else if c == 'p' {
        Some(SortField::Prs)
    } else if c == 'R' {
        Some(SortField::Repos)
    } else {
        None
    }
}

/// What a key press does.
///
/// `q` quits. Escape leaves the snapshot picker, and elsewhere goes back.
/// `t` opens or leaves the picker; `o`, `r` and `u` switch to the
/// organization, repository and contributor lists. Up or `k`, Down or `j`
/// move the selection of the picker or of the current view. Enter picks the
/// snapshot in the picker, and elsewhere drills down. Outside the picker,
/// `s` flips the sort order and `n`, `c`, `l`, `p`, `R` sort by name,
/// commits, lines, pull requests, repositories. `S` asks for a collection
/// run. Any other key does nothing.
pub open spec fn key_step(old: App, key: Key, new: App) -> bool {
    let picker = old.current_view == View::ScrapeSelection;
    match key {
        Key::Char(c) => if c == 'q' {
            new == (App { should_quit: true, ..old })
        } else if c == 't' {
            new == view_switch_requested(old, if picker { View::Org } else { View::ScrapeSelection })
        } else if c == 'o' {
            new == view_switch_requested(old, View::Org)
        } else if c == 'r' {
            new == view_switch_requested(old, View::Repo)
        } else if c == 'u' {
            new == view_switch_requested(old, View::Contributors)
        } else if c == 'k' {
            new == if picker { scrape_selection_moved_up(old) } else { selection_moved_up(old) }
        } else if c == 'j' {
            new == if picker { scrape_selection_moved_down(old) } else { selection_moved_down(old) }
        } else if c == 's' {
            if picker { new == old } else { sort_toggled(old, new) }
        } else if field_key(c) is Some {
            if picker { new == old } else { sort_field_set(old, field_key(c)->Some_0, new) }
        } else if c == 'S' {
            new == if old.is_scraping { old } else { App { start_scraping_requested: true, ..old } }
        } else {
            new == old
        },
        Key::Esc => new == if picker {
            view_switch_requested(old, View::Org)
        } else {
            App { navigate_back_requested: true, ..old }
        },
        Key::Up => new == if picker { scrape_selection_moved_up(old) } else { selection_moved_up(old) },
        Key::Down => new == if picker {
            scrape_selection_moved_down(old)
        } else {
            selection_moved_down(old)
        },
        Key::Enter => new == if picker {
            App { pending_view_switch: Some(View::Org), ..old }
        } else {
            App { drill_down_requested: true, ..old }
        },
        Key::Other => new == old,
    }
}

fn field_for(c: char) -> (r: Option<SortField>)
    ensures
        r == field_key(c),
{
    if c == 'n' {
        Some(SortField::Name)
    } else if c == 'c' {
        Some(SortField::Commits)
    } else if c == 'l' {
        Some(SortField::Lines)
    } else if c == 'p' {
        Some(SortField::Prs)
    } else if c == 'R' {
        Some(SortField::Repos)
    } else {
        None
    }
}

/// Applies one key press to the dashboard; see `key_step`.
pub fn handle_key_event(key: Key, app: &mut App)
    ensures
        key_step(*old(app), key, *final(app)),
{
    let picker = app.current_view == View::ScrapeSelection;
    match key {
        Key::Char(c) => {
            if c == 'q' {
                app.quit();
            } else if c == 't' {
                if picker {
                    app.request_view_switch(View::Org);
                } else {
                    app.request_view_switch(View::ScrapeSelection);
                }
            } else if c == 'o' {
                app.request_view_switch(View::Org);
            } else if c == 'r' {
                app.request_view_switch(View::Repo);
            } else if c == 'u' {
                app.request_view_switch(View::Contributors);
            } else if c == 'k' {
                if picker {
                    app.move_scrape_selection_up();
                } else {
                    app.move_selection_up();
                }
            } else if c == 'j' {
                if picker {
                    app.move_scrape_selection_down();
                } else {
                    app.move_selection_down();
                }
            } else if c == 's' {
                if !picker {
                    app.toggle_sort_order();
                }
            } else {
                match field_for(c) {
                    Some(field) => {
                        if !picker {
                            app.set_sort_field(field);
                        }
                    },
                    None => {
                        if c == 'S' {
                            app.request_scraping();
                        }
                    },
                }
            }
        },
        Key::Esc => {
            if picker {
                app.request_view_switch(View::Org);
            } else {
                app.request_navigate_back();
            }
        },
        Key::Up => {
            if picker {
                app.move_scrape_selection_up();
            } else {
                app.move_selection_up();
            }
        },
        Key::Down => {
            if picker {
                app.move_scrape_selection_down();
            } else {
                app.move_selection_down();
            }
        },
        Key::Enter => {
            if picker {
                app.pending_view_switch = Some(View::Org);
            } else {
                app.request_drill_down();
            }
        },
        Key::Other => {},
    }
}

} // verus!
