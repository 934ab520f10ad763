use std::time::Duration;

use scanet::app::{App, ScanState};
use scanet::device::Device;
use scanet::ipv4::Ipv4Addr;
use scanet::view_text::{detail_label_text, seen_ago_text, device_row_cells, device_status_text, input_field_text, text_or};

#[test]
fn header_shows_the_scanned_block() {
    let app = App::new(Ipv4Addr::new(10, 0, 5, 50));
    assert_eq!(app.header_text(), "scanet - LAN Device Scanner    [10.0.5.0/24]");
}

#[test]
fn status_bar_idle() {
    let mut app = App::new(Ipv4Addr::new(10, 0, 5, 50));
    app.devices.push(Device::new(Ipv4Addr::new(10, 0, 5, 1), Duration::from_millis(1)));
    assert_eq!(
        app.status_text_at(None, 0),
        "Devices: 1 | Not scanned yet | Press 's' to start scanning, 'c' for continuous mode | [S]can [C]ontinuous: OFF [Q]uit"
    );
    app.continuous_mode = true;
    assert_eq!(
        app.status_text_at(Some(42), 0),
        "Devices: 1 | Last scan: 42s ago | Press 's' to start scanning, 'c' for continuous mode | [S]can [C]ontinuous: ON (10s) [Q]uit"
    );
}

#[test]
fn status_bar_scanning_and_waiting() {
    let mut app = App::new(Ipv4Addr::new(10, 0, 5, 50));
    app.scan_state = ScanState::Scanning;
    app.scanned_count = 1;
    app.total_count = 3;
    app.spinner_index = 5;
    app.current_scanning_ip = Some(Ipv4Addr::new(10, 0, 5, 9));
    assert_eq!(
        app.status_text_at(None, 0),
        "Devices: 0 | ⠴ Scanning [10.0.5.9] 1/3 (33%) | [C]ontinuous: OFF | [Q]uit"
    );
    app.scan_state = ScanState::Waiting;
    app.spinner_index = 0;
    app.continuous_mode = true;
    assert_eq!(
        app.status_text_at(None, 7),
        "Devices: 0 | ⠋ Waiting... 7s | [C]ontinuous: ON (10s) | [Q]uit"
    );
}

#[test]
fn status_bar_with_the_clock() {
    let app = App::new(Ipv4Addr::new(10, 0, 5, 50));
    assert_eq!(
        app.status_text(),
        "Devices: 0 | Not scanned yet | Press 's' to start scanning, 'c' for continuous mode | [S]can [C]ontinuous: OFF [Q]uit"
    );
}

#[test]
fn device_cells_and_placeholders() {
    let mut d = Device::new(Ipv4Addr::new(192, 168, 0, 3), Duration::from_millis(1));
    assert_eq!(device_row_cells(&d), vec!["192.168.0.3", "-", "-", "-"]);
    assert_eq!(device_status_text(&d), "New");
    d.mac = Some("AA:BB:CC:DD:EE:FF".to_string());
    d.vendor = Some("Acme".to_string());
    d.hostname = Some("box".to_string());
    d.is_new = false;
    assert_eq!(device_row_cells(&d), vec!["192.168.0.3", "AA:BB:CC:DD:EE:FF", "box", "Acme"]);
    assert_eq!(device_status_text(&d), "Known");
    assert_eq!(text_or(&None, "Unknown"), "Unknown");
}

#[test]
fn input_field_cursor_marker() {
    assert_eq!(input_field_text("10.0.0.1", None), "10.0.0.1");
    assert_eq!(input_field_text("10.0.0.1", Some(2)), "10|.0.0.1");
    assert_eq!(input_field_text("10.0.0.1", Some(0)), "|10.0.0.1");
    assert_eq!(input_field_text("10.0.0.1", Some(8)), "10.0.0.1|");
    assert_eq!(input_field_text("10.0.0.1", Some(99)), "10.0.0.1|");
    assert_eq!(input_field_text("", Some(0)), "|");
}

#[test]
fn detail_lines_pad_labels() {
    assert_eq!(detail_label_text("IP Address"), "  IP Address     ");
    assert_eq!(detail_label_text("A label longer than fifteen"), "  A label longer than fifteen");
    assert_eq!(detail_label_text("Status"), format!("  {:<15}", "Status"));
    assert_eq!(seen_ago_text(12), "12 seconds ago");
}
