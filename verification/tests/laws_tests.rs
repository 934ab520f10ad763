use std::time::Duration;

use scanet::app::App;
use scanet::device::Device;
use scanet::ipv4::Ipv4Addr;

#[test]
fn scan_range_text_parses_back_to_scan_range() {
    for ip in [
        Ipv4Addr::new(192, 168, 1, 100),
        Ipv4Addr::new(10, 0, 0, 0),
        Ipv4Addr::new(255, 255, 255, 255),
    ] {
        let app = App::new(ip);
        assert_eq!(App::parse_cidr(app.scan_range_cidr().as_str()), Ok(app.scan_range));
    }
}

#[test]
fn progress_stays_at_most_100() {
    let mut app = App::new(Ipv4Addr::new(192, 168, 1, 1));
    for (scanned, total) in [(0, 1), (1, 1), (253, 254), (254, 254), (7, 9)] {
        app.scanned_count = scanned;
        app.total_count = total;
        assert!(app.progress_percent() <= 100);
    }
}

#[test]
fn adding_devices_in_any_order_keeps_list_sorted_and_unique() {
    let mut app = App::new(Ipv4Addr::new(192, 168, 1, 1));
    for last in [50u8, 3, 200, 3, 77, 50, 1] {
        app.add_device(Device::new(Ipv4Addr::new(192, 168, 1, last), Duration::from_millis(1)));
    }
    let bits: Vec<u32> = app.devices.iter().map(|d| d.ip.to_bits()).collect();
    let mut expected = bits.clone();
    expected.sort();
    expected.dedup();
    assert_eq!(bits, expected);
    assert_eq!(bits.len(), 5);
}

#[test]
fn selection_down_then_up_returns() {
    let mut app = App::new(Ipv4Addr::new(192, 168, 1, 1));
    for last in [1u8, 2, 3] {
        app.add_device(Device::new(Ipv4Addr::new(192, 168, 1, last), Duration::from_millis(1)));
    }
    for start in 0..3 {
        app.selected_index = start;
        app.select_next();
        app.select_previous();
        assert_eq!(app.selected_index, start);
        app.select_previous();
        assert!(app.selected_index < 3);
        app.select_next();
        assert_eq!(app.selected_index, start);
    }
}


#[test]
fn adding_a_device_leaves_the_others_alone() {
    let mut app = App::new(Ipv4Addr::new(192, 168, 1, 1));
    app.add_device(Device::new(Ipv4Addr::new(192, 168, 1, 9), Duration::from_millis(1)));
    app.update_device_hostname(Ipv4Addr::new(192, 168, 1, 9), Some("nas".to_string()));
    let mut d = Device::new(Ipv4Addr::new(192, 168, 1, 4), Duration::from_millis(7));
    d.vendor = Some("Acme".to_string());
    app.add_device(d);
    assert_eq!(app.devices.len(), 2);
    assert_eq!(app.devices[0].ip, Ipv4Addr::new(192, 168, 1, 4));
    assert_eq!(app.devices[0].vendor.as_deref(), Some("Acme"));
    assert_eq!(app.devices[0].response_time, Duration::from_millis(7));
    assert_eq!(app.devices[1].hostname.as_deref(), Some("nas"));
    assert!(app.devices[1].is_new);
}
