use cluster_sim::viewport::{first_visible, AtomicRect, ScrollState};

#[test]
fn new_rect_contains_nothing() {
    let rect = AtomicRect::new();
    assert_eq!(rect, AtomicRect { x: 0, y: 0, width: 0, height: 0 });
    assert!(!rect.contains(0, 0));
    assert!(!rect.contains(1, 1));
}

#[test]
fn rect_contains_its_cells_and_no_others() {
    let mut rect = AtomicRect::new();
    rect.update_from(10, 20, 5, 3);
    assert_eq!(rect, AtomicRect { x: 10, y: 20, width: 5, height: 3 });
    assert!(rect.contains(10, 20));
    assert!(rect.contains(14, 22));
    assert!(!rect.contains(9, 20));
    assert!(!rect.contains(15, 20));
    assert!(!rect.contains(10, 19));
    assert!(!rect.contains(10, 23));
}

#[test]
fn rect_at_the_edge_of_the_range() {
    let rect = AtomicRect { x: 65_000, y: 65_000, width: 65_535, height: 65_535 };
    assert!(rect.contains(65_535, 65_535));
    assert!(rect.contains(65_000, 65_000));
    assert!(!rect.contains(64_999, 65_000));
}

#[test]
fn first_visible_stops_where_the_last_request_is_in_view() {
    assert_eq!(first_visible(0, 10, 3), 0);
    assert_eq!(first_visible(4, 10, 3), 4);
    assert_eq!(first_visible(7, 10, 3), 7);
    assert_eq!(first_visible(8, 10, 3), 7);
    assert_eq!(first_visible(usize::MAX, 10, 3), 7);
    assert_eq!(first_visible(5, 2, 3), 0);
    assert_eq!(first_visible(5, 0, 1), 0);
}

#[test]
fn scrolling_over_a_server_moves_its_list() {
    let mut state = ScrollState::new();
    state.server_areas[0].update_from(0, 0, 10, 10);
    state.server_areas[1].update_from(10, 0, 10, 10);
    state.server_areas[2].update_from(20, 0, 10, 10);
    assert_eq!(state.hit_server(5, 5), Some(0));
    assert_eq!(state.hit_server(10, 9), Some(1));
    assert_eq!(state.hit_server(29, 0), Some(2));
    assert_eq!(state.hit_server(30, 0), None);
    assert_eq!(state.hit_server(5, 10), None);
    state.scroll(12, 3, true);
    state.scroll(12, 3, true);
    state.scroll(25, 3, true);
    state.scroll(25, 3, false);
    state.scroll(25, 3, false);
    assert_eq!(state.server_scroll, [0, 2, 0]);
    assert_eq!(state.selected_log, 0);
}

#[test]
fn scrolling_elsewhere_moves_the_log() {
    let mut state = ScrollState::new();
    state.server_areas[0].update_from(0, 0, 10, 10);
    state.scroll(50, 50, false);
    assert_eq!(state.selected_log, 0);
    state.scroll(50, 50, true);
    state.scroll(50, 50, true);
    state.scroll(50, 50, true);
    state.scroll(50, 50, false);
    assert_eq!(state.selected_log, 2);
    assert_eq!(state.server_scroll, [0, 0, 0]);
    state.selected_log = usize::MAX;
    state.scroll(50, 50, true);
    assert_eq!(state.selected_log, usize::MAX);
}

#[test]
fn overlapping_areas_hit_the_first() {
    let mut state = ScrollState::new();
    state.server_areas[1].update_from(0, 0, 10, 10);
    state.server_areas[2].update_from(0, 0, 10, 10);
    assert_eq!(state.hit_server(3, 3), Some(1));
}

#[test]
fn selected_log_line_stays_within_the_log() {
    let mut state = ScrollState::new();
    state.selected_log = 7;
    state.clamp_selected_log(20);
    assert_eq!(state.selected_log, 7);
    state.clamp_selected_log(5);
    assert_eq!(state.selected_log, 4);
    state.clamp_selected_log(0);
    assert_eq!(state.selected_log, 0);
}
