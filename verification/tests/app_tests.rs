use modsec_audit::app::{
    all_positions, matching_positions, snap, App, AppView, Effect, TableArea,
};
use modsec_audit::parser::AuditGroup;
use modsec_audit::search::SearchFilter;
use modsec_audit::timestamp::Timestamp;

fn chain(id: &str, domain: &str, ip: &str, status: Option<u16>) -> AuditGroup {
    AuditGroup {
        base_id: id.to_string(),
        entries: Vec::new(),
        first_timestamp: Timestamp { secs: 0, nanos: 0 },
        domain: domain.to_string(),
        client_ip: ip.to_string(),
        http_status: status,
        primary_rule_ids: Vec::new(),
        file_path: None,
    }
}

fn chains(n: usize) -> Vec<AuditGroup> {
    (0..n)
        .map(|i| {
            chain(
                &format!("id{}", i),
                if i % 2 == 0 { "even.example" } else { "odd.example" },
                &format!("203.0.113.{}", i),
                if i % 3 == 0 { Some(404) } else { Some(200) },
            )
        })
        .collect()
}

fn session(n: usize) -> App {
    App::new("audit.log", chains(n), false)
}

#[test]
fn a_new_session_shows_every_chain() {
    let app = session(4);
    assert_eq!(app.audit_groups.len(), 4);
    assert_eq!(app.filtered_groups, vec![0, 1, 2, 3]);
    assert_eq!(app.selected_index, 0);
    assert_eq!(app.scroll_offset, 0);
    assert_eq!(app.search_query, "");
    assert!(!app.search_mode);
    assert_eq!(app.current_view, AppView::TableView);
    assert_eq!(app.detail_scroll, 0);
    assert!(!app.should_quit);
    assert_eq!(app.log_path, "audit.log");
    assert_eq!(app.last_click_time, None);
    assert_eq!(app.last_click_row, None);
    assert_eq!(app.table_area, None);
    assert!(!app.ip_api_enabled);
    assert_eq!(app.current_ip_info, None);
    assert_eq!(app.selected_group().map(|g| g.base_id.as_str()), Some("id0"));
    assert_eq!(app.visible_groups().len(), 4);
    let empty = session(0);
    assert!(empty.filtered_groups.is_empty());
    assert!(empty.selected_group().is_none());
    assert!(empty.visible_groups().is_empty());
}

#[test]
fn an_empty_query_shows_the_full_list_in_order() {
    let mut app = session(5);
    app.set_search_query("odd".to_string());
    assert_eq!(app.filtered_groups, vec![1, 3]);
    app.set_search_query(String::new());
    assert_eq!(app.filtered_groups, vec![0, 1, 2, 3, 4]);
    app.add_search_char('q');
    assert!(app.filtered_groups.is_empty());
    app.remove_search_char();
    assert_eq!(app.search_query, "");
    assert_eq!(app.filtered_groups, vec![0, 1, 2, 3, 4]);
    app.remove_search_char();
    assert_eq!(app.search_query, "");
    assert_eq!(app.filtered_groups, vec![0, 1, 2, 3, 4]);
    assert_eq!(all_positions(&app.audit_groups), vec![0, 1, 2, 3, 4]);
    assert_eq!(matching_positions(&app.audit_groups, &SearchFilter::Everything), vec![0, 1, 2, 3, 4]);
    assert_eq!(
        matching_positions(&app.audit_groups, &SearchFilter::Status("404".to_string())),
        vec![0, 3]
    );
}

#[test]
fn every_change_of_the_query_resets_selection_and_viewport() {
    let mut app = session(40);
    app.page_down(20);
    app.move_selection_down(20);
    assert_eq!((app.selected_index, app.scroll_offset), (21, 20));
    app.add_search_char('e');
    assert_eq!((app.selected_index, app.scroll_offset), (0, 0));
    assert_eq!(app.search_query, "e");
    assert_eq!(app.filtered_groups.len(), 40);

    app.page_down(20);
    app.add_search_char('v');
    assert_eq!((app.selected_index, app.scroll_offset), (0, 0));
    assert_eq!(app.filtered_groups.len(), 20);
    assert_eq!(app.selected_group().map(|g| g.base_id.as_str()), Some("id0"));
    app.move_selection_down(20);
    assert_eq!(app.selected_group().map(|g| g.base_id.as_str()), Some("id2"));

    app.page_down(5);
    app.remove_search_char();
    assert_eq!((app.selected_index, app.scroll_offset), (0, 0));
    assert_eq!(app.search_query, "e");

    app.page_down(5);
    app.apply_search();
    assert_eq!((app.selected_index, app.scroll_offset), (0, 0));

    app.page_down(5);
    app.set_search_query("status:404".to_string());
    assert_eq!((app.selected_index, app.scroll_offset), (0, 0));
    assert_eq!(app.filtered_groups.len(), 14);

    app.page_down(5);
    app.clear_search();
    assert_eq!((app.selected_index, app.scroll_offset), (0, 0));
    assert_eq!(app.search_query, "");
    assert_eq!(app.filtered_groups.len(), 40);
}

#[test]
fn matches_search_follows_the_query() {
    let mut app = session(3);
    let hit = chain("zz", "d", "203.0.113.9", Some(404));
    let miss = chain("zz", "d", "198.51.100.9", Some(200));
    assert!(app.matches_search(&hit) && app.matches_search(&miss));
    app.set_search_query("ip:203.0.113".to_string());
    assert!(app.matches_search(&hit));
    assert!(!app.matches_search(&miss));
    app.set_search_query("status:404".to_string());
    assert!(app.matches_search(&hit));
    assert!(!app.matches_search(&miss));
}

#[test]
fn an_address_query_ignores_letter_case() {
    let mut app = App::new("audit.log", vec![chain("abc", "unknown", "2001:DB8::1", None)], false);
    app.set_search_query("ip:2001:DB8".to_string());
    assert!(app.matches_search(&chain("abc", "unknown", "2001:DB8::1", None)));
    assert!(!app.matches_search(&chain("abc", "unknown", "2001:DB9::1", None)));
    assert_eq!(app.filtered_groups, vec![0]);
}

#[test]
fn the_selection_stays_within_the_list() {
    let mut app = session(3);
    app.move_selection_up();
    assert_eq!(app.selected_index, 0);
    for expected in [1, 2, 2, 2] {
        app.move_selection_down(20);
        assert_eq!(app.selected_index, expected);
    }
    app.page_down(20);
    assert_eq!(app.selected_index, 2);
    app.page_up(20);
    assert_eq!(app.selected_index, 0);
    app.page_down(usize::MAX);
    assert_eq!(app.selected_index, 2);

    let mut empty = session(0);
    empty.move_selection_down(20);
    assert_eq!(empty.selected_index, 0);
    empty.move_selection_up();
    assert_eq!(empty.selected_index, 0);
    empty.page_down(20);
    assert_eq!((empty.selected_index, empty.scroll_offset), (0, 0));
    empty.page_up(20);
    assert_eq!((empty.selected_index, empty.scroll_offset), (0, 0));
    empty.select_last(20);
    assert_eq!((empty.selected_index, empty.scroll_offset), (0, 0));
    assert!(empty.selected_group().is_none());
}

#[test]
fn the_viewport_follows_the_selection() {
    let mut app = session(10);
    for _ in 0..3 {
        app.move_selection_down(3);
    }
    assert_eq!((app.selected_index, app.scroll_offset), (3, 1));
    app.move_selection_down(3);
    assert_eq!((app.selected_index, app.scroll_offset), (4, 2));
    app.move_selection_up();
    assert_eq!((app.selected_index, app.scroll_offset), (3, 2));
    app.move_selection_up();
    app.move_selection_up();
    assert_eq!((app.selected_index, app.scroll_offset), (1, 1));
    app.move_selection_down(1);
    assert_eq!((app.selected_index, app.scroll_offset), (2, 2));
    app.move_selection_down(0);
    assert_eq!((app.selected_index, app.scroll_offset), (3, 3));
    app.select_first();
    assert_eq!((app.selected_index, app.scroll_offset), (0, 0));
    app.select_last(4);
    assert_eq!((app.selected_index, app.scroll_offset), (9, 6));
    app.select_last(20);
    assert_eq!((app.selected_index, app.scroll_offset), (9, 0));
    app.select_last(0);
    assert_eq!((app.selected_index, app.scroll_offset), (9, 9));
    assert_eq!(snap(5, 2, 3), 2);
    assert_eq!(snap(5, 7, 3), 5);
    assert_eq!(snap(5, 8, 3), 6);
    assert_eq!(snap(0, usize::MAX, usize::MAX), 1);
    assert_eq!(snap(0, 4, 0), 4);
}

#[test]
fn the_viewport_shows_a_range_of_rows() {
    let mut app = session(30);
    assert_eq!(app.visible_range(10), (0, 10));
    assert_eq!(app.visible_range(0), (0, 0));
    assert_eq!(app.visible_range(40), (0, 30));
    app.page_down(10);
    app.page_down(10);
    assert_eq!(app.visible_range(10), (20, 30));
    assert_eq!(app.visible_range(15), (20, 30));
    assert_eq!(app.visible_range(usize::MAX), (20, 30));
    assert_eq!(app.visible_range(3), (20, 23));
    assert_eq!(session(0).visible_range(10), (0, 0));
}

#[test]
fn paging_moves_selection_and_viewport() {
    let mut app = session(50);
    app.page_down(20);
    assert_eq!((app.selected_index, app.scroll_offset), (20, 20));
    app.page_down(20);
    assert_eq!((app.selected_index, app.scroll_offset), (40, 30));
    app.page_down(20);
    assert_eq!((app.selected_index, app.scroll_offset), (49, 30));
    app.page_up(20);
    assert_eq!((app.selected_index, app.scroll_offset), (29, 10));
    app.page_up(20);
    assert_eq!((app.selected_index, app.scroll_offset), (9, 0));
    app.page_up(20);
    assert_eq!((app.selected_index, app.scroll_offset), (0, 0));
    let mut few = session(5);
    few.page_down(20);
    assert_eq!((few.selected_index, few.scroll_offset), (4, 0));
}

#[test]
fn refresh_keeps_the_position_within_the_new_list() {
    let mut app = session(30);
    app.page_down(10);
    app.move_selection_down(20);
    assert_eq!((app.selected_index, app.scroll_offset), (11, 10));
    app.refresh(chains(40));
    assert_eq!(app.audit_groups.len(), 40);
    assert_eq!(app.filtered_groups.len(), 40);
    assert_eq!((app.selected_index, app.scroll_offset), (11, 10));
    app.refresh(chains(11));
    assert_eq!((app.selected_index, app.scroll_offset), (10, 10));
    app.refresh(chains(5));
    assert_eq!((app.selected_index, app.scroll_offset), (4, 4));
    app.refresh(Vec::new());
    assert_eq!((app.selected_index, app.scroll_offset), (0, 0));
    assert!(app.filtered_groups.is_empty());
}

#[test]
fn refresh_applies_the_query_again() {
    let mut app = session(6);
    app.set_search_query("odd".to_string());
    app.move_selection_down(20);
    app.move_selection_down(20);
    assert_eq!(app.filtered_groups, vec![1, 3, 5]);
    assert_eq!(app.selected_index, 2);
    app.refresh(chains(4));
    assert_eq!(app.search_query, "odd");
    assert_eq!(app.filtered_groups, vec![1, 3]);
    assert_eq!(app.selected_index, 1);
    assert_eq!(app.selected_group().map(|g| g.base_id.as_str()), Some("id3"));
}

#[test]
fn the_detail_view_scrolls_from_zero_upwards() {
    let mut app = session(2);
    app.scroll_detail_up();
    assert_eq!(app.detail_scroll, 0);
    app.scroll_detail_down();
    app.scroll_detail_down();
    assert_eq!(app.detail_scroll, 2);
    app.page_detail_down(10);
    assert_eq!(app.detail_scroll, 12);
    app.page_detail_up(5);
    assert_eq!(app.detail_scroll, 7);
    app.page_detail_up(10);
    assert_eq!(app.detail_scroll, 0);
    app.scroll_detail_end();
    assert_eq!(app.detail_scroll, usize::MAX);
    app.scroll_detail_down();
    assert_eq!(app.detail_scroll, usize::MAX);
    app.page_detail_down(10);
    assert_eq!(app.detail_scroll, usize::MAX);
    app.scroll_detail_up();
    assert_eq!(app.detail_scroll, usize::MAX - 1);
    app.scroll_detail_home();
    assert_eq!(app.detail_scroll, 0);
}

#[test]
fn two_clicks_within_half_a_second_open_the_detail_view() {
    let mut app = session(5);
    assert!(!app.handle_click_at(2, 20, 1_000_000_000));
    assert_eq!(app.selected_index, 2);
    assert_eq!(app.last_click_time, Some(1_000_000_000));
    assert_eq!(app.last_click_row, Some(2));
    assert!(app.handle_click_at(2, 20, 1_400_000_000));
    assert!(app.handle_click_at(2, 20, 1_899_999_999));
    assert!(!app.handle_click_at(2, 20, 2_399_999_999));
    assert!(app.handle_click_at(2, 20, 2_399_999_999));
}

#[test]
fn two_clicks_six_hundred_milliseconds_apart_do_not() {
    let mut app = session(5);
    assert!(!app.handle_click_at(2, 20, 1_000_000_000));
    assert!(!app.handle_click_at(2, 20, 1_600_000_000));
    assert_eq!(app.last_click_time, Some(1_600_000_000));
}

#[test]
fn a_click_on_another_row_is_no_double_click() {
    let mut app = session(5);
    assert!(!app.handle_click_at(2, 20, 100));
    assert!(!app.handle_click_at(3, 20, 200));
    assert_eq!(app.selected_index, 3);
    assert!(app.handle_click_at(3, 20, 150));
    assert!(app.handle_click_at(3, 20, 150));
}

#[test]
fn a_click_moves_the_viewport_like_a_move() {
    let mut app = session(30);
    app.handle_click_at(12, 5, 0);
    assert_eq!((app.selected_index, app.scroll_offset), (12, 8));
    app.handle_click_at(3, 5, 0);
    assert_eq!((app.selected_index, app.scroll_offset), (3, 3));
    app.handle_click_at(5, 5, 0);
    assert_eq!((app.selected_index, app.scroll_offset), (5, 3));
}

#[test]
fn clicks_are_timed_by_the_clock() {
    let mut app = session(5);
    let first = app.clock_reading();
    assert!(!app.handle_click(1, 20));
    assert!(app.handle_click(1, 20));
    let stamp = app.last_click_time.expect("a click was recorded");
    assert!(first <= stamp && stamp <= app.clock_reading());
    assert!(stamp < 60_000_000_000);
    assert_eq!(app.last_click_row, Some(1));
}

#[test]
fn screen_rows_map_to_rows_of_the_list() {
    let mut app = session(30);
    assert_eq!(app.click_target(5), None);
    app.set_table_area(TableArea { y: 3, height: 13 });
    assert_eq!(App::content_height(TableArea { y: 3, height: 13 }), 10);
    assert_eq!(App::content_height(TableArea { y: 3, height: 2 }), 0);
    assert_eq!(app.click_target(4), None);
    assert_eq!(app.click_target(5), Some(0));
    assert_eq!(app.click_target(14), Some(9));
    assert_eq!(app.click_target(15), None);
    app.page_down(10);
    assert_eq!(app.click_target(5), Some(10));
    app.select_last(10);
    assert_eq!(app.scroll_offset, 20);
    assert_eq!(app.click_target(14), Some(29));
    let mut short = session(2);
    short.set_table_area(TableArea { y: u16::MAX - 1, height: u16::MAX });
    assert_eq!(short.click_target(u16::MAX), None);
    short.set_table_area(TableArea { y: 0, height: 10 });
    assert_eq!(short.click_target(3), Some(1));
    assert_eq!(short.click_target(4), None);
}

#[test]
fn flags_toggle() {
    let mut app = session(1);
    app.enter_search_mode();
    assert!(app.search_mode);
    app.exit_search_mode();
    assert!(!app.search_mode);
    assert_eq!(app.show_detail_view(), Effect::Nothing);
    assert_eq!(app.current_view, AppView::DetailView);
    app.show_table_view();
    assert_eq!(app.current_view, AppView::TableView);
    app.quit();
    assert!(app.should_quit);
}

#[test]
fn entering_the_detail_view_looks_the_address_up_once_per_subnet() {
    let mut app = App::new(
        "audit.log",
        vec![
            chain("a", "d", "203.0.113.10", None),
            chain("b", "d", "203.0.113.200", None),
            chain("c", "d", "198.51.100.1", None),
        ],
        true,
    );
    app.page_detail_down(10);
    let effect = app.show_detail_view();
    assert_eq!(app.detail_scroll, 0);
    assert_eq!(app.current_view, AppView::DetailView);
    let (key, url) = match effect {
        Effect::FetchIpInfo { key, url } => (key, url),
        other => panic!("expected a lookup, got {:?}", other),
    };
    assert_eq!(key, "203.0.113.0");
    assert!(url.starts_with("http://ip-api.com/json/203.0.113.0?fields=query,status,"));
    assert_eq!(app.current_ip_info, None);
    app.ip_info_fetched(key, Some("{\"isp\": \"Example\"}".to_string()));
    assert_eq!(app.current_ip_info.as_deref(), Some("{\"isp\": \"Example\"}"));

    app.show_table_view();
    app.move_selection_down(20);
    assert_eq!(app.show_detail_view(), Effect::Nothing);
    assert_eq!(app.current_ip_info.as_deref(), Some("{\"isp\": \"Example\"}"));

    app.move_selection_down(20);
    let effect = app.lookup_selected_ip();
    assert_eq!(app.current_ip_info.as_deref(), Some("{\"isp\": \"Example\"}"));
    match effect {
        Effect::FetchIpInfo { key, .. } => {
            assert_eq!(key, "198.51.100.0");
            app.ip_info_fetched(key, None);
        },
        other => panic!("expected a lookup, got {:?}", other),
    }
    assert_eq!(app.current_ip_info, None);
    assert!(matches!(app.lookup_selected_ip(), Effect::FetchIpInfo { .. }));
}

#[test]
fn without_lookups_the_detail_view_has_no_address_information() {
    let mut app = session(2);
    app.ip_info_fetched("k".to_string(), Some("old".to_string()));
    assert_eq!(app.current_ip_info.as_deref(), Some("old"));
    assert_eq!(app.lookup_selected_ip(), Effect::Nothing);
    assert_eq!(app.current_ip_info.as_deref(), Some("old"));
    assert_eq!(app.show_detail_view(), Effect::Nothing);
    assert_eq!(app.current_ip_info, None);
    let mut none_selected = App::new("audit.log", Vec::new(), true);
    none_selected.ip_info_fetched("k".to_string(), Some("old".to_string()));
    assert_eq!(none_selected.show_detail_view(), Effect::Nothing);
    assert_eq!(none_selected.current_ip_info.as_deref(), Some("old"));
}
