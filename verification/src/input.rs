//! What each key and click does to a session.

use crate::app::{App, AppView, Effect};
use vstd::prelude::*;

verus! {

/// A key as the session sees it.
#[derive(Debug, Clone, Copy, PartialEq, Eq, Structural)]
pub enum Key {
    Char(char),
    Up,
    Down,
    Left,
    Right,
    PageUp,
    PageDown,
    Home,
    End,
    Enter,
    Esc,
    Backspace,
    F(u8),
    Other,
}

/// The rows that the keys of the table view take the viewport to have.
pub const VISIBLE_HEIGHT: usize = 20;

/// The lines that a page key scrolls the detail view by.
pub const DETAIL_PAGE_SIZE: usize = 10;

/// What a key does in the table view while the query is not being edited.
pub open spec fn table_key(before: App, key: Key, after: App, effect: Effect) -> bool {
    match key {
        Key::Char('q') => effect == Effect::Nothing && after == (App { should_quit: true, ..before }),
        Key::Up | Key::Char('k') => effect == Effect::Nothing && after == before.moved_up(),
        Key::Down | Key::Char('j') => effect == Effect::Nothing && after == before.moved_down(
            VISIBLE_HEIGHT,
        ),
        Key::PageUp => effect == Effect::Nothing && after == before.paged_up(VISIBLE_HEIGHT),
        Key::PageDown => effect == Effect::Nothing && after == before.paged_down(VISIBLE_HEIGHT),
        Key::Home => effect == Effect::Nothing && after == before.at(0, 0),
        Key::End => effect == Effect::Nothing && after == before.at_last(VISIBLE_HEIGHT),
        Key::Enter => before.detail_shown(after, effect),
        Key::Char('/') => effect == Effect::Nothing && after == (App { search_mode: true, ..before }),
        Key::Char('r') | Key::F(5) => effect == Effect::Reload && after == before,
        Key::Esc => effect == Effect::Nothing && before.searched(&after, Seq::<char>::empty()),
        _ => effect == Effect::Nothing && after == before,
    }
}

/// What a key does while the query is being edited.
pub open spec fn search_key(before: App, key: Key, after: App) -> bool {
    match key {
        Key::Char(c) => before.searched(&after, before.search_query@.push(c)),
        Key::Backspace => before.searched(
            &after,
            if before.search_query@.len() > 0 {
                before.search_query@.drop_last()
            } else {
                before.search_query@
            },
        ),
        Key::Enter => after == (App { search_mode: false, ..before }),
        Key::Esc => (App { search_mode: false, ..before }).searched(&after, Seq::<char>::empty()),
        _ => after == before,
    }
}

/// What a key does in the detail view.
pub open spec fn detail_key(before: App, key: Key, after: App, effect: Effect) -> bool {
    match key {
        Key::Char('q') | Key::Esc => effect == Effect::Nothing && after == (App {
            current_view: AppView::TableView,
            ..before
        }),
        Key::Up | Key::Char('k') => effect == Effect::Nothing && after == before.with_detail_scroll(
            if before.detail_scroll > 0 {
                before.detail_scroll - 1
            } else {
                0
            },
        ),
        Key::Down | Key::Char('j') => effect == Effect::Nothing && after
            == before.with_detail_scroll(
            if before.detail_scroll < usize::MAX {
                before.detail_scroll + 1
            } else {
                usize::MAX as int
            },
        ),
        Key::PageUp => effect == Effect::Nothing && after == before.with_detail_scroll(
            if before.detail_scroll >= DETAIL_PAGE_SIZE {
                before.detail_scroll - DETAIL_PAGE_SIZE
            } else {
                0
            },
        ),
        Key::PageDown => effect == Effect::Nothing && after == before.with_detail_scroll(
            if before.detail_scroll + DETAIL_PAGE_SIZE <= usize::MAX {
                before.detail_scroll + DETAIL_PAGE_SIZE
            } else {
                usize::MAX as int
            },
        ),
        Key::Home => effect == Effect::Nothing && after == before.with_detail_scroll(0),
        Key::End => effect == Effect::Nothing && after == before.with_detail_scroll(usize::MAX as int),
        Key::Left | Key::Char('h') => before.moved_up().with_detail_scroll(0).looked_up(after, effect),
        Key::Right | Key::Char('l') => before.moved_down(VISIBLE_HEIGHT).with_detail_scroll(
            0,
        ).looked_up(after, effect),
        _ => effect == Effect::Nothing && after == before,
    }
}

/// What a key does: that depends on the view and on whether the query is
/// being edited.
pub open spec fn key_handled(before: App, key: Key, after: App, effect: Effect) -> bool {
    match before.current_view {
        AppView::TableView => if before.search_mode {
            effect == Effect::Nothing && search_key(before, key, after)
        } else {
            table_key(before, key, after, effect)
        },
        AppView::DetailView => detail_key(before, key, after, effect),
    }
}

/// What a mouse event on screen row `mouse_row` at clock reading `now` does.
/// Only a button press on a row of the list in the table view, while the
/// query is not being edited, does anything: it is a click on that row, and
/// the second click of a double-click opens the detail view.
pub open spec fn mouse_handled(
    before: App,
    pressed: bool,
    mouse_row: u16,
    now: u128,
    after: App,
    effect: Effect,
) -> bool {
    if pressed && before.current_view == AppView::TableView && !before.search_mode
        && before.row_at(mouse_row) is Some {
        let row = before.row_at(mouse_row)->0;
        let height = App::content_rows(before.table_area->0);
        let clicked = before.clicked(row, height, now);
        if crate::app::is_double_click(before.last_click_time, before.last_click_row, row, now) {
            clicked.detail_shown(after, effect)
        } else {
            effect == Effect::Nothing && after == clicked
        }
    } else {
        effect == Effect::Nothing && after == before
    }
}

/// Handles a key in the table view while the query is not being edited.
pub fn handle_table_input(app: &mut App, key: Key) -> (effect: Effect)
    requires
        old(app).wf(),
    ensures
        final(app).wf(),
        table_key(*old(app), key, *final(app), effect),
{
    match key {
        Key::Char('q') => {
            app.quit();
            Effect::Nothing
        },
        Key::Up | Key::Char('k') => {
            app.move_selection_up();
            Effect::Nothing
        },
        Key::Down | Key::Char('j') => {
            app.move_selection_down(VISIBLE_HEIGHT);
            Effect::Nothing
        },
        Key::PageUp => {
            app.page_up(VISIBLE_HEIGHT);
            Effect::Nothing
        },
        Key::PageDown => {
            app.page_down(VISIBLE_HEIGHT);
            Effect::Nothing
        },
        Key::Home => {
            app.select_first();
            Effect::Nothing
        },
        Key::End => {
            app.select_last(VISIBLE_HEIGHT);
            Effect::Nothing
        },
        Key::Enter => app.show_detail_view(),
        Key::Char('/') => {
            app.enter_search_mode();
            Effect::Nothing
        },
        Key::Char('r') | Key::F(5) => Effect::Reload,
        Key::Esc => {
            app.clear_search();
            Effect::Nothing
        },
        _ => Effect::Nothing,
    }
}

/// Handles a key while the query is being edited.
pub fn handle_search_input(app: &mut App, key: Key)
    requires
        old(app).wf(),
    ensures
        final(app).wf(),
        search_key(*old(app), key, *final(app)),
{
    match key {
        Key::Char(c) => app.add_search_char(c),
        Key::Backspace => app.remove_search_char(),
        Key::Enter => app.exit_search_mode(),
        Key::Esc => {
            app.exit_search_mode();
            app.clear_search();
        },
        _ => {},
    }
}

/// Handles a key in the detail view.
pub fn handle_detail_input(app: &mut App, key: Key) -> (effect: Effect)
    requires
        old(app).wf(),
    ensures
        final(app).wf(),
        detail_key(*old(app), key, *final(app), effect),
{
    match key {
        Key::Char('q') | Key::Esc => {
            app.show_table_view();
            Effect::Nothing
        },
        Key::Up | Key::Char('k') => {
            app.scroll_detail_up();
            Effect::Nothing
        },
        Key::Down | Key::Char('j') => {
            app.scroll_detail_down();
            Effect::Nothing
        },
        Key::PageUp => {
            app.page_detail_up(DETAIL_PAGE_SIZE);
            Effect::Nothing
        },
        Key::PageDown => {
            app.page_detail_down(DETAIL_PAGE_SIZE);
            Effect::Nothing
        },
        Key::Home => {
            app.scroll_detail_home();
            Effect::Nothing
        },
        Key::End => {
            app.scroll_detail_end();
            Effect::Nothing
        },
        Key::Left | Key::Char('h') => {
            app.move_selection_up();
            app.scroll_detail_home();
            app.lookup_selected_ip()
        },
        Key::Right | Key::Char('l') => {
            app.move_selection_down(VISIBLE_HEIGHT);
            app.scroll_detail_home();
            app.lookup_selected_ip()
        },
        _ => Effect::Nothing,
    }
}

/// Handles a key, whatever the view.
pub fn handle_key(app: &mut App, key: Key) -> (effect: Effect)
    requires
        old(app).wf(),
    ensures
        final(app).wf(),
        key_handled(*old(app), key, *final(app), effect),
{
    match app.current_view {
        AppView::TableView => {
            if app.search_mode {
                handle_search_input(app, key);
                Effect::Nothing
            } else {
                handle_table_input(app, key)
            }
        },
        AppView::DetailView => handle_detail_input(app, key),
    }
}

/// Handles a mouse event on screen row `mouse_row` at clock reading `now`.
pub fn handle_mouse_input_at(app: &mut App, pressed: bool, mouse_row: u16, now: u128) -> (effect:
    Effect)
    requires
        old(app).wf(),
    ensures
        final(app).wf(),
        mouse_handled(*old(app), pressed, mouse_row, now, *final(app), effect),
{
    if !pressed || app.current_view != AppView::TableView || app.search_mode {
        return Effect::Nothing;
    }
    match app.click_target(mouse_row) {
        Some(row) => {
            let height = match app.table_area {
                Some(area) => App::content_height(area),
                None => 0,
            };
            if app.handle_click_at(row, height, now) {
                app.show_detail_view()
            } else {
                Effect::Nothing
            }
        },
        None => Effect::Nothing,
    }
}

/// Handles a mouse event on screen row `mouse_row`, timed by the session's
/// clock: see [`handle_mouse_input_at`].
pub fn handle_mouse_input(app: &mut App, pressed: bool, mouse_row: u16) -> (effect: Effect)
    requires
        old(app).wf(),
    ensures
        final(app).wf(),
        exists|now: u128| mouse_handled(*old(app), pressed, mouse_row, now, *final(app), effect),
{
    let now = app.clock_reading();
    handle_mouse_input_at(app, pressed, mouse_row, now)
}

} // verus!
