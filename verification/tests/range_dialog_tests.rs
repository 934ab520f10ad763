use scanet::app::{App, RangeInputField, View};
use scanet::ipv4::Ipv4Addr;

fn dialog() -> App {
    let mut app = App::new(Ipv4Addr::new(192, 168, 1, 77));
    app.open_range_input();
    app
}

#[test]
fn open_fills_fields_from_scan_range() {
    let app = dialog();
    assert_eq!(app.current_view, View::RangeInput);
    assert_eq!(app.range_input_start, "192.168.1.1");
    assert_eq!(app.range_input_end, "192.168.1.254");
    assert_eq!(app.range_input_field, RangeInputField::Start);
    assert_eq!(app.range_input_cursor, 11);
    assert!(app.range_input_error.is_none());
}

#[test]
fn push_then_pop_restores_text_and_cursor() {
    let mut app = dialog();
    app.range_input_cursor = 4;
    app.range_input_push('9');
    assert_eq!(app.range_input_start, "192.9168.1.1");
    assert_eq!(app.range_input_cursor, 5);
    app.range_input_pop();
    assert_eq!(app.range_input_start, "192.168.1.1");
    assert_eq!(app.range_input_cursor, 4);
}

#[test]
fn push_at_end_appends_and_pop_at_end_removes_last() {
    let mut app = dialog();
    app.range_input_push('0');
    assert_eq!(app.range_input_start, "192.168.1.10");
    assert_eq!(app.range_input_cursor, 12);
    app.range_input_pop();
    app.range_input_pop();
    assert_eq!(app.range_input_start, "192.168.1.");
    assert_eq!(app.range_input_cursor, 10);
}

#[test]
fn pop_at_start_does_nothing() {
    let mut app = dialog();
    app.range_input_cursor = 0;
    app.range_input_error = Some("x".to_string());
    app.range_input_pop();
    assert_eq!(app.range_input_start, "192.168.1.1");
    assert_eq!(app.range_input_cursor, 0);
    assert_eq!(app.range_input_error.as_deref(), Some("x"));
}

#[test]
fn push_clears_error() {
    let mut app = dialog();
    app.range_input_error = Some("Invalid start IP".to_string());
    app.range_input_push('1');
    assert!(app.range_input_error.is_none());
}

#[test]
fn cursor_moves_stay_within_text() {
    let mut app = dialog();
    app.range_input_cursor_right();
    assert_eq!(app.range_input_cursor, 11);
    app.range_input_cursor_left();
    app.range_input_cursor_left();
    assert_eq!(app.range_input_cursor, 9);
    app.range_input_cursor_right();
    assert_eq!(app.range_input_cursor, 10);
    app.range_input_cursor = 0;
    app.range_input_cursor_left();
    assert_eq!(app.range_input_cursor, 0);
}

#[test]
fn toggle_twice_returns_to_start_field() {
    let mut app = dialog();
    app.range_input_cursor = 3;
    app.toggle_range_input_field();
    assert_eq!(app.range_input_field, RangeInputField::End);
    assert_eq!(app.range_input_cursor, 13);
    app.toggle_range_input_field();
    assert_eq!(app.range_input_field, RangeInputField::Start);
    assert_eq!(app.range_input_cursor, 11);
}

#[test]
fn editing_the_end_field_leaves_start_alone() {
    let mut app = dialog();
    app.toggle_range_input_field();
    app.range_input_pop();
    app.range_input_pop();
    app.range_input_push('9');
    assert_eq!(app.range_input_end, "192.168.1.29");
    assert_eq!(app.range_input_start, "192.168.1.1");
}

#[test]
fn open_then_apply_keeps_range() {
    let mut app = dialog();
    let before = app.scan_range;
    assert!(app.apply_range_input());
    assert_eq!(app.scan_range, before);
    assert_eq!(app.current_view, View::Main);
    assert_eq!(app.status_message, "Range set: 192.168.1.1 - 192.168.1.254");
}

#[test]
fn apply_cidr_sets_status_message() {
    let mut app = dialog();
    app.range_input_start = "10.1.2.3/30".to_string();
    assert!(app.apply_range_input());
    assert_eq!(app.scan_range, (Ipv4Addr::new(10, 1, 2, 1), Ipv4Addr::new(10, 1, 2, 2)));
    assert_eq!(app.status_message, "Range set: 10.1.2.1 - 10.1.2.2");
    assert!(app.range_input_error.is_none());
}

#[test]
fn apply_bad_cidr_reports_its_error() {
    let mut app = dialog();
    app.range_input_start = "10.0.0.0/24/8".to_string();
    assert!(!app.apply_range_input());
    assert_eq!(app.range_input_error.as_deref(), Some("Invalid CIDR format"));
    assert_eq!(app.current_view, View::RangeInput);
}

#[test]
fn apply_invalid_start_and_end() {
    let mut app = dialog();
    let before = app.scan_range;
    app.range_input_start = "300.1.1.1".to_string();
    assert!(!app.apply_range_input());
    assert_eq!(app.range_input_error.as_deref(), Some("Invalid start IP"));
    app.range_input_start = "10.0.0.1".to_string();
    app.range_input_end = "10.0.0".to_string();
    assert!(!app.apply_range_input());
    assert_eq!(app.range_input_error.as_deref(), Some("Invalid end IP"));
    assert_eq!(app.scan_range, before);
}

#[test]
fn apply_reversed_range_is_refused() {
    let mut app = dialog();
    app.range_input_start = "10.0.0.9".to_string();
    app.range_input_end = "10.0.0.8".to_string();
    assert!(!app.apply_range_input());
    assert_eq!(app.range_input_error.as_deref(), Some("Start must be <= End"));
}

#[test]
fn cidr_edge_prefixes() {
    assert_eq!(
        App::parse_cidr("10.9.8.7/32"),
        Ok((Ipv4Addr::new(10, 9, 8, 7), Ipv4Addr::new(10, 9, 8, 7)))
    );
    assert_eq!(
        App::parse_cidr("10.9.8.7/31"),
        Ok((Ipv4Addr::new(10, 9, 8, 6), Ipv4Addr::new(10, 9, 8, 7)))
    );
    assert_eq!(
        App::parse_cidr("10.9.8.7/0"),
        Ok((Ipv4Addr::new(0, 0, 0, 1), Ipv4Addr::new(255, 255, 255, 254)))
    );
    assert_eq!(
        App::parse_cidr("10.9.8.7/+08"),
        Ok((Ipv4Addr::new(10, 0, 0, 1), Ipv4Addr::new(10, 255, 255, 254)))
    );
    assert_eq!(App::parse_cidr("10.9.8.7/256"), Err("Invalid prefix length".to_string()));
    assert_eq!(App::parse_cidr("010.9.8.7/8"), Err("Invalid IP address".to_string()));
}
