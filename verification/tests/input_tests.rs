use modsec_audit::app::{App, AppView, Effect, TableArea};
use modsec_audit::input::{
    handle_detail_input, handle_key, handle_mouse_input, handle_mouse_input_at,
    handle_search_input, handle_table_input, Key, DETAIL_PAGE_SIZE, VISIBLE_HEIGHT,
};
use modsec_audit::parser::AuditGroup;
use modsec_audit::timestamp::Timestamp;

fn chains(n: usize) -> Vec<AuditGroup> {
    (0..n)
        .map(|i| AuditGroup {
            base_id: format!("id{}", i),
            entries: Vec::new(),
            first_timestamp: Timestamp { secs: 0, nanos: 0 },
            domain: format!("host{}.example", i),
            client_ip: format!("198.51.{}.7", i),
            http_status: None,
            primary_rule_ids: Vec::new(),
            file_path: None,
        })
        .collect()
}

fn session(n: usize, lookups: bool) -> App {
    App::new("audit.log", chains(n), lookups)
}

#[test]
fn table_keys_move_the_selection() {
    assert_eq!(VISIBLE_HEIGHT, 20);
    let mut app = session(100, false);
    for key in [Key::Down, Key::Char('j'), Key::Down] {
        assert_eq!(handle_table_input(&mut app, key), Effect::Nothing);
    }
    assert_eq!(app.selected_index, 3);
    handle_table_input(&mut app, Key::Up);
    handle_table_input(&mut app, Key::Char('k'));
    assert_eq!(app.selected_index, 1);
    handle_table_input(&mut app, Key::PageDown);
    assert_eq!((app.selected_index, app.scroll_offset), (21, 20));
    handle_table_input(&mut app, Key::PageUp);
    assert_eq!((app.selected_index, app.scroll_offset), (1, 0));
    handle_table_input(&mut app, Key::End);
    assert_eq!((app.selected_index, app.scroll_offset), (99, 80));
    handle_table_input(&mut app, Key::Home);
    assert_eq!((app.selected_index, app.scroll_offset), (0, 0));
    handle_table_input(&mut app, Key::Other);
    handle_table_input(&mut app, Key::Char('x'));
    handle_table_input(&mut app, Key::F(1));
    handle_table_input(&mut app, Key::Left);
    assert_eq!((app.selected_index, app.scroll_offset), (0, 0));
    assert_eq!(app.current_view, AppView::TableView);
    assert!(!app.should_quit && !app.search_mode);
}

#[test]
fn table_keys_quit_search_reload_and_open() {
    let mut app = session(3, false);
    assert_eq!(handle_table_input(&mut app, Key::Char('r')), Effect::Reload);
    assert_eq!(handle_table_input(&mut app, Key::F(5)), Effect::Reload);
    assert_eq!(handle_table_input(&mut app, Key::Char('/')), Effect::Nothing);
    assert!(app.search_mode);
    app.exit_search_mode();
    app.set_search_query("host1".to_string());
    assert_eq!(app.filtered_groups, vec![1]);
    assert_eq!(handle_table_input(&mut app, Key::Esc), Effect::Nothing);
    assert_eq!(app.search_query, "");
    assert_eq!(app.filtered_groups, vec![0, 1, 2]);
    assert_eq!(handle_table_input(&mut app, Key::Enter), Effect::Nothing);
    assert_eq!(app.current_view, AppView::DetailView);
    app.show_table_view();
    assert_eq!(handle_table_input(&mut app, Key::Char('q')), Effect::Nothing);
    assert!(app.should_quit);
    let mut looking = session(3, true);
    assert!(matches!(handle_table_input(&mut looking, Key::Enter), Effect::FetchIpInfo { .. }));
}

#[test]
fn search_keys_edit_the_query() {
    let mut app = session(12, false);
    app.enter_search_mode();
    app.move_selection_down(20);
    for c in "Host1".chars() {
        handle_search_input(&mut app, Key::Char(c));
    }
    assert_eq!(app.search_query, "Host1");
    assert_eq!(app.filtered_groups, vec![1, 10, 11]);
    assert_eq!(app.selected_index, 0);
    handle_search_input(&mut app, Key::Char('1'));
    assert_eq!(app.filtered_groups, vec![11]);
    handle_search_input(&mut app, Key::Backspace);
    assert_eq!(app.search_query, "Host1");
    handle_search_input(&mut app, Key::Up);
    handle_search_input(&mut app, Key::Other);
    assert_eq!(app.search_query, "Host1");
    handle_search_input(&mut app, Key::Enter);
    assert!(!app.search_mode);
    assert_eq!(app.search_query, "Host1");
    assert_eq!(app.filtered_groups, vec![1, 10, 11]);
    app.enter_search_mode();
    handle_search_input(&mut app, Key::Esc);
    assert!(!app.search_mode);
    assert_eq!(app.search_query, "");
    assert_eq!(app.filtered_groups.len(), 12);
}

#[test]
fn detail_keys_scroll_and_step_through_the_chains() {
    assert_eq!(DETAIL_PAGE_SIZE, 10);
    let mut app = session(30, true);
    assert!(matches!(app.show_detail_view(), Effect::FetchIpInfo { .. }));
    for key in [Key::Down, Key::Char('j'), Key::PageDown] {
        assert_eq!(handle_detail_input(&mut app, key), Effect::Nothing);
    }
    assert_eq!(app.detail_scroll, 12);
    handle_detail_input(&mut app, Key::Up);
    handle_detail_input(&mut app, Key::Char('k'));
    assert_eq!(app.detail_scroll, 10);
    handle_detail_input(&mut app, Key::PageUp);
    assert_eq!(app.detail_scroll, 0);
    handle_detail_input(&mut app, Key::End);
    assert_eq!(app.detail_scroll, usize::MAX);
    handle_detail_input(&mut app, Key::Home);
    assert_eq!(app.detail_scroll, 0);

    handle_detail_input(&mut app, Key::PageDown);
    let effect = handle_detail_input(&mut app, Key::Right);
    assert_eq!((app.selected_index, app.detail_scroll), (1, 0));
    match effect {
        Effect::FetchIpInfo { key, .. } => {
            assert_eq!(key, "198.51.1.0");
            app.ip_info_fetched(key, Some("one".to_string()));
        },
        other => panic!("expected a lookup, got {:?}", other),
    }
    assert!(matches!(handle_detail_input(&mut app, Key::Char('l')), Effect::FetchIpInfo { .. }));
    assert_eq!(app.selected_index, 2);
    assert_eq!(app.current_ip_info.as_deref(), Some("one"));
    handle_detail_input(&mut app, Key::Down);
    assert_eq!(handle_detail_input(&mut app, Key::Left), Effect::Nothing);
    assert_eq!((app.selected_index, app.detail_scroll), (1, 0));
    assert_eq!(app.current_ip_info.as_deref(), Some("one"));
    assert!(matches!(handle_detail_input(&mut app, Key::Char('h')), Effect::FetchIpInfo { .. }));
    assert_eq!(app.selected_index, 0);
    assert_eq!(handle_detail_input(&mut app, Key::Other), Effect::Nothing);
    assert_eq!(app.current_view, AppView::DetailView);
    handle_detail_input(&mut app, Key::Esc);
    assert_eq!(app.current_view, AppView::TableView);
    app.show_detail_view();
    handle_detail_input(&mut app, Key::Char('q'));
    assert_eq!(app.current_view, AppView::TableView);
    assert!(!app.should_quit);
}

#[test]
fn keys_go_to_the_handler_of_the_view() {
    let mut app = session(5, false);
    handle_key(&mut app, Key::Char('j'));
    assert_eq!(app.selected_index, 1);
    handle_key(&mut app, Key::Char('/'));
    assert!(app.search_mode);
    assert_eq!(handle_key(&mut app, Key::Char('q')), Effect::Nothing);
    assert!(!app.should_quit);
    assert_eq!(app.search_query, "q");
    handle_key(&mut app, Key::Esc);
    assert!(!app.search_mode);
    handle_key(&mut app, Key::Enter);
    assert_eq!(app.current_view, AppView::DetailView);
    handle_key(&mut app, Key::Char('j'));
    assert_eq!((app.selected_index, app.detail_scroll), (0, 1));
    handle_key(&mut app, Key::Char('q'));
    assert_eq!(app.current_view, AppView::TableView);
    handle_key(&mut app, Key::Char('q'));
    assert!(app.should_quit);
}

#[test]
fn a_double_click_opens_the_detail_view() {
    let mut app = session(30, false);
    app.set_table_area(TableArea { y: 3, height: 13 });
    assert_eq!(handle_mouse_input_at(&mut app, false, 7, 0), Effect::Nothing);
    assert_eq!(app.last_click_row, None);
    assert_eq!(handle_mouse_input_at(&mut app, true, 4, 0), Effect::Nothing);
    assert_eq!(app.last_click_row, None);
    assert_eq!(handle_mouse_input_at(&mut app, true, 7, 1_000), Effect::Nothing);
    assert_eq!((app.selected_index, app.last_click_row), (2, Some(2)));
    assert_eq!(app.current_view, AppView::TableView);
    assert_eq!(handle_mouse_input_at(&mut app, true, 7, 600_000_000), Effect::Nothing);
    assert_eq!(app.current_view, AppView::TableView);
    assert_eq!(handle_mouse_input_at(&mut app, true, 7, 1_000_000_000), Effect::Nothing);
    assert_eq!(app.current_view, AppView::DetailView);
    assert_eq!(handle_mouse_input_at(&mut app, true, 8, 1_000_000_001), Effect::Nothing);
    assert_eq!(app.selected_index, 2);
    app.show_table_view();
    app.enter_search_mode();
    handle_mouse_input_at(&mut app, true, 8, 1_000_000_002);
    assert_eq!(app.selected_index, 2);
}

#[test]
fn a_click_below_the_viewport_scrolls_by_the_content_height() {
    let mut app = session(30, true);
    app.set_table_area(TableArea { y: 0, height: 8 });
    app.select_last(20);
    assert_eq!((app.selected_index, app.scroll_offset), (29, 10));
    handle_mouse_input_at(&mut app, true, 6, 5);
    assert_eq!((app.selected_index, app.scroll_offset), (14, 10));
    let effect = handle_mouse_input_at(&mut app, true, 6, 6);
    assert!(matches!(effect, Effect::FetchIpInfo { .. }));
    assert_eq!(app.current_view, AppView::DetailView);
}

#[test]
fn the_clock_times_mouse_clicks() {
    let mut app = session(3, false);
    app.set_table_area(TableArea { y: 0, height: 10 });
    handle_mouse_input(&mut app, true, 2);
    assert_eq!(app.selected_index, 0);
    assert_eq!(app.current_view, AppView::TableView);
    handle_mouse_input(&mut app, true, 2);
    assert_eq!(app.current_view, AppView::DetailView);
}
