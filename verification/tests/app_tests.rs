use cliphist::app::{clamp_page, App};

#[test]
fn cursor_clamps_to_last_valid_page() {
    // 45 records at 20 per page: pages 0, 1, 2 — a cursor at 5 moves to 2
    assert_eq!(clamp_page(5, 45, 20), 2);
}

#[test]
fn cursor_within_range_is_kept() {
    assert_eq!(clamp_page(0, 45, 20), 0);
    assert_eq!(clamp_page(1, 45, 20), 1);
    assert_eq!(clamp_page(2, 45, 20), 2);
}

#[test]
fn cursor_over_empty_store_moves_to_first_page() {
    assert_eq!(clamp_page(7, 0, 20), 0);
}

#[test]
fn cursor_at_exact_page_boundary() {
    // 40 records at 20 per page: pages 0 and 1
    assert_eq!(clamp_page(5, 40, 20), 1);
    assert_eq!(clamp_page(5, 41, 20), 2);
    assert_eq!(clamp_page(5, 1, 20), 0);
}

#[test]
fn refresh_clamps_cursor_against_live_count() {
    let mut app = App::new(":memory:".to_string());
    assert_eq!(app.items_per_page, 20);
    app.current_page = 5;
    app.refresh_history();
    assert_eq!(app.total_count, 0);
    assert_eq!(app.current_page, 0);
    assert!(app.history.is_empty());
}
