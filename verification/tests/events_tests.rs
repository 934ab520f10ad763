use std::time::Duration;

use scanet::app::{App, ScanState, View};
use scanet::device::Device;
use scanet::events::{Key, KeyFollowUp, ScanFollowUp, ScanMessage};
use scanet::ipv4::Ipv4Addr;

fn app() -> App {
    App::new(Ipv4Addr::new(192, 168, 1, 5))
}

fn dev(last: u8) -> Device {
    Device::new(Ipv4Addr::new(192, 168, 1, last), Duration::from_millis(2))
}

#[test]
fn initializing_starts_scanning() {
    let mut a = app();
    assert!(matches!(a.handle_scan_message(ScanMessage::Initializing), ScanFollowUp::Nothing));
    assert_eq!(a.scan_state, ScanState::Scanning);
    assert_eq!(a.status_message, "Loading ARP table...");
}

#[test]
fn scan_started_is_ignored_when_stopped() {
    let mut a = app();
    a.handle_scan_message(ScanMessage::ScanStarted);
    assert_eq!(a.scan_state, ScanState::Idle);
    a.continuous_mode = true;
    a.handle_scan_message(ScanMessage::ScanStarted);
    assert_eq!(a.scan_state, ScanState::Scanning);
    assert!(a.wait_started.is_none());
}

#[test]
fn device_and_updates_reach_the_list() {
    let mut a = app();
    a.handle_scan_message(ScanMessage::Device(dev(9)));
    a.handle_scan_message(ScanMessage::Device(dev(3)));
    a.handle_scan_message(ScanMessage::UpdateDevice {
        ip: Ipv4Addr::new(192, 168, 1, 9),
        hostname: Some("nas".to_string()),
    });
    a.handle_scan_message(ScanMessage::UpdateVendor {
        ip: Ipv4Addr::new(192, 168, 1, 3),
        vendor: "Acme".to_string(),
    });
    a.handle_scan_message(ScanMessage::UpdateVendor {
        ip: Ipv4Addr::new(192, 168, 1, 4),
        vendor: "Nobody".to_string(),
    });
    assert_eq!(a.devices.len(), 2);
    assert_eq!(a.devices[0].ip, Ipv4Addr::new(192, 168, 1, 3));
    assert_eq!(a.devices[0].vendor.as_deref(), Some("Acme"));
    assert_eq!(a.devices[1].hostname.as_deref(), Some("nas"));
    assert!(a.devices[1].vendor.is_none());
}

#[test]
fn progress_is_recorded() {
    let mut a = app();
    a.handle_scan_message(ScanMessage::Progress {
        scanned: 7,
        total: 254,
        current_ip: Ipv4Addr::new(192, 168, 1, 7),
    });
    assert_eq!(a.scanned_count, 7);
    assert_eq!(a.total_count, 254);
    assert_eq!(a.current_scanning_ip, Some(Ipv4Addr::new(192, 168, 1, 7)));
}

#[test]
fn scan_complete_outside_continuous_mode_reports_count() {
    let mut a = app();
    a.handle_scan_message(ScanMessage::Initializing);
    a.handle_scan_message(ScanMessage::Device(dev(1)));
    a.handle_scan_message(ScanMessage::Device(dev(2)));
    let out = a.handle_scan_message(ScanMessage::ScanComplete);
    assert!(matches!(out, ScanFollowUp::Nothing));
    assert_eq!(a.scan_state, ScanState::Idle);
    assert_eq!(a.status_message, "Found 2 devices");
    assert!(a.last_scan.is_some());
}

#[test]
fn scan_complete_in_continuous_mode_schedules_next_round() {
    let mut a = app();
    a.continuous_mode = true;
    a.scan_state = ScanState::Scanning;
    match a.handle_scan_message(ScanMessage::ScanComplete) {
        ScanFollowUp::RestartScan { delay_secs, start, end } => {
            assert_eq!(delay_secs, 10);
            assert_eq!(start, Ipv4Addr::new(192, 168, 1, 1));
            assert_eq!(end, Ipv4Addr::new(192, 168, 1, 254));
        }
        ScanFollowUp::Nothing => panic!("expected a restart"),
    }
    assert_eq!(a.scan_state, ScanState::Waiting);
    assert!(a.wait_started.is_some());
}

#[test]
fn scan_complete_with_zero_interval_restarts_at_once() {
    let mut a = app();
    a.continuous_mode = true;
    a.scan_interval_secs = 0;
    a.scan_state = ScanState::Scanning;
    match a.handle_scan_message(ScanMessage::ScanComplete) {
        ScanFollowUp::RestartScan { delay_secs, .. } => assert_eq!(delay_secs, 0),
        ScanFollowUp::Nothing => panic!("expected a restart"),
    }
    assert_eq!(a.scan_state, ScanState::Scanning);
    assert!(a.wait_started.is_none());
}

#[test]
fn s_starts_scan_only_when_idle() {
    let mut a = app();
    a.devices.push(dev(4));
    match a.handle_key(Key::Char('s')) {
        KeyFollowUp::StartScan { start, end } => {
            assert_eq!(start, Ipv4Addr::new(192, 168, 1, 1));
            assert_eq!(end, Ipv4Addr::new(192, 168, 1, 254));
        }
        _ => panic!("expected a scan"),
    }
    assert!(a.devices.is_empty());
    a.scan_state = ScanState::Scanning;
    assert!(matches!(a.handle_key(Key::Char('s')), KeyFollowUp::Nothing));
}

#[test]
fn c_toggles_continuous_mode() {
    let mut a = app();
    assert!(matches!(a.handle_key(Key::Char('c')), KeyFollowUp::StartScan { .. }));
    assert!(a.continuous_mode);
    assert_eq!(a.scan_state, ScanState::Scanning);
    assert_eq!(a.status_message, "Continuous mode ON");
    a.scan_state = ScanState::Waiting;
    assert!(matches!(a.handle_key(Key::Char('c')), KeyFollowUp::Nothing));
    assert!(!a.continuous_mode);
    assert_eq!(a.scan_state, ScanState::Idle);
    assert_eq!(a.status_message, "Continuous mode OFF");
}

#[test]
fn interval_keys_saturate() {
    let mut a = app();
    a.handle_key(Key::Char('+'));
    a.handle_key(Key::Char('='));
    assert_eq!(a.scan_interval_secs, 12);
    assert_eq!(a.status_message, "Interval: 12s");
    a.scan_interval_secs = 0;
    a.handle_key(Key::Char('-'));
    assert_eq!(a.scan_interval_secs, 0);
    assert_eq!(a.status_message, "Interval: 0s");
    a.scan_interval_secs = u64::MAX;
    a.handle_key(Key::Char('+'));
    assert_eq!(a.scan_interval_secs, u64::MAX);
}

#[test]
fn enter_opens_details_and_asks_for_vendor() {
    let mut a = app();
    assert!(matches!(a.handle_key(Key::Enter), KeyFollowUp::Nothing));
    assert_eq!(a.current_view, View::Main);
    let mut d = dev(8);
    d.mac = Some("AA:BB:CC:00:11:22".to_string());
    a.add_device(d);
    match a.handle_key(Key::Enter) {
        KeyFollowUp::LookupVendor { ip, mac } => {
            assert_eq!(ip, Ipv4Addr::new(192, 168, 1, 8));
            assert_eq!(mac, "AA:BB:CC:00:11:22");
        }
        _ => panic!("expected a vendor lookup"),
    }
    assert_eq!(a.current_view, View::DeviceDetail);
    a.handle_key(Key::Char('x'));
    assert_eq!(a.current_view, View::DeviceDetail);
    a.handle_key(Key::Esc);
    assert_eq!(a.current_view, View::Main);
}

#[test]
fn help_closes_on_any_key() {
    let mut a = app();
    a.handle_key(Key::Char('?'));
    assert_eq!(a.current_view, View::Help);
    a.handle_key(Key::Other);
    assert_eq!(a.current_view, View::Main);
}

#[test]
fn navigation_keys_move_selection() {
    let mut a = app();
    a.add_device(dev(1));
    a.add_device(dev(2));
    a.handle_key(Key::Char('j'));
    assert_eq!(a.selected_index, 1);
    a.handle_key(Key::Down);
    assert_eq!(a.selected_index, 0);
    a.handle_key(Key::Char('k'));
    assert_eq!(a.selected_index, 1);
    a.handle_key(Key::Up);
    assert_eq!(a.selected_index, 0);
}

#[test]
fn q_quits() {
    let mut a = app();
    a.handle_key(Key::Char('q'));
    assert!(a.should_quit);
}

#[test]
fn range_dialog_keys() {
    let mut a = app();
    a.handle_key(Key::Char('r'));
    assert_eq!(a.current_view, View::RangeInput);
    a.handle_key(Key::Backspace);
    a.handle_key(Key::Char('x'));
    a.handle_key(Key::Char('0'));
    a.handle_key(Key::Left);
    a.handle_key(Key::Char('/'));
    a.handle_key(Key::Right);
    assert_eq!(a.range_input_start, "192.168.1./0");
    a.handle_key(Key::Tab);
    a.handle_key(Key::Esc);
    assert_eq!(a.current_view, View::Main);
    a.handle_key(Key::Char('r'));
    a.handle_key(Key::Enter);
    assert_eq!(a.current_view, View::Main);
}

#[test]
fn r_is_ignored_while_scanning() {
    let mut a = app();
    a.scan_state = ScanState::Scanning;
    a.handle_key(Key::Char('r'));
    assert_eq!(a.current_view, View::Main);
}

#[test]
fn tick_turns_spinner_only_while_busy() {
    let mut a = app();
    a.on_tick();
    assert_eq!(a.spinner_index, 0);
    a.scan_state = ScanState::Waiting;
    a.spinner_index = 9;
    a.on_tick();
    assert_eq!(a.spinner_index, 0);
    a.on_tick();
    assert_eq!(a.spinner_index, 1);
}
