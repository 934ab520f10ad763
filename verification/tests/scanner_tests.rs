use std::collections::HashMap;
use std::time::Duration;

use scanet::device::Device;
use scanet::ipv4::Ipv4Addr;
use scanet::scanner::{
    cached_mac, device_if_answered, hostname_if_named, with_mac_and_vendor, lookup_vendor, reverse_lookup_query, scan_origin, vendor_from_lookup,
    vendor_from_reply, vendor_lookup_url, PingScanner,
};

#[test]
fn new_scanner_settings() {
    let s = PingScanner::new();
    assert_eq!(s.timeout_ms(), 500);
    assert_eq!(s.concurrency(), 50);
    let d = PingScanner::default();
    assert_eq!(d.timeout_ms(), 500);
    assert_eq!(d.concurrency(), 50);
}

#[test]
fn ip_range_is_inclusive_and_ordered() {
    let r = PingScanner::generate_ip_range(Ipv4Addr::new(10, 0, 0, 254), Ipv4Addr::new(10, 0, 1, 2));
    assert_eq!(
        r,
        vec![
            Ipv4Addr::new(10, 0, 0, 254),
            Ipv4Addr::new(10, 0, 0, 255),
            Ipv4Addr::new(10, 0, 1, 0),
            Ipv4Addr::new(10, 0, 1, 1),
            Ipv4Addr::new(10, 0, 1, 2),
        ]
    );
}

#[test]
fn ip_range_single_and_reversed() {
    let one = PingScanner::generate_ip_range(Ipv4Addr::new(1, 2, 3, 4), Ipv4Addr::new(1, 2, 3, 4));
    assert_eq!(one, vec![Ipv4Addr::new(1, 2, 3, 4)]);
    let none = PingScanner::generate_ip_range(Ipv4Addr::new(1, 2, 3, 5), Ipv4Addr::new(1, 2, 3, 4));
    assert!(none.is_empty());
    let top = PingScanner::generate_ip_range(
        Ipv4Addr::new(255, 255, 255, 254),
        Ipv4Addr::new(255, 255, 255, 255),
    );
    assert_eq!(top.len(), 2);
}

#[test]
fn batches_cover_the_range() {
    let s = PingScanner::new();
    let b = s.scan_batches(Ipv4Addr::new(192, 168, 1, 1), Ipv4Addr::new(192, 168, 1, 254));
    assert_eq!(b.len(), 6);
    for batch in &b[..5] {
        assert_eq!(batch.len(), 50);
    }
    assert_eq!(b[5].len(), 4);
    let flat: Vec<Ipv4Addr> = b.into_iter().flatten().collect();
    assert_eq!(
        flat,
        PingScanner::generate_ip_range(Ipv4Addr::new(192, 168, 1, 1), Ipv4Addr::new(192, 168, 1, 254))
    );
    assert!(s.scan_batches(Ipv4Addr::new(1, 1, 1, 2), Ipv4Addr::new(1, 1, 1, 1)).is_empty());
}

#[test]
fn ping_arguments() {
    let s = PingScanner::new();
    assert_eq!(s.ping_wait_secs(), 1);
    assert_eq!(
        s.ping_args(Ipv4Addr::new(192, 168, 1, 42)),
        vec!["-c", "1", "-W", "1", "192.168.1.42"]
    );
}

#[test]
fn reverse_lookup_helpers() {
    assert_eq!(reverse_lookup_query(Ipv4Addr::new(10, 0, 0, 3)), "10.0.0.3:0");
    assert_eq!(hostname_if_named(Ipv4Addr::new(10, 0, 0, 3), "10.0.0.3".to_string()), None);
    assert_eq!(
        hostname_if_named(Ipv4Addr::new(10, 0, 0, 3), "router.lan".to_string()),
        Some("router.lan".to_string())
    );
}

#[test]
fn vendor_reply_handling() {
    assert_eq!(vendor_lookup_url("AA:BB:CC:DD:EE:FF"), "https://api.macvendors.com/AA:BB:CC:DD:EE:FF");
    assert_eq!(vendor_from_reply(true, Some("Apple, Inc.".to_string())), Some("Apple, Inc.".to_string()));
    assert_eq!(vendor_from_reply(true, Some(String::new())), None);
    assert_eq!(vendor_from_reply(false, Some("Not Found".to_string())), None);
    assert_eq!(vendor_from_reply(true, None), None);
}

#[test]
fn vendor_from_database_answer() {
    assert_eq!(vendor_from_lookup(Ok(Some("Acme".to_string()))), Some("Acme".to_string()));
    assert_eq!(vendor_from_lookup(Ok(None)), None);
    assert_eq!(vendor_from_lookup(Err("bad mac".to_string())), None);
}

#[test]
fn vendor_from_embedded_database() {
    let db = mac_oui::Oui::default().unwrap();
    // 00:00:0C is registered to Cisco Systems.
    let v = lookup_vendor(&db, "00:00:0C:12:34:56");
    assert!(v.map(|n| n.contains("Cisco")).unwrap_or(false));
    assert_eq!(lookup_vendor(&db, "not a mac"), None);
}

#[test]
fn origin_falls_back_for_ipv6() {
    assert_eq!(scan_origin(Some(Ipv4Addr::new(10, 1, 1, 1))), Ipv4Addr::new(10, 1, 1, 1));
    assert_eq!(scan_origin(None), Ipv4Addr::new(192, 168, 1, 1));
}

#[test]
fn ping_answer_makes_a_device() {
    let d = device_if_answered(Ipv4Addr::new(10, 0, 0, 2), true, Duration::from_millis(3)).unwrap();
    assert_eq!(d.ip, Ipv4Addr::new(10, 0, 0, 2));
    assert_eq!(d.response_time, Duration::from_millis(3));
    assert!(d.is_new);
    assert!(device_if_answered(Ipv4Addr::new(10, 0, 0, 2), false, Duration::from_millis(3)).is_none());
}

#[test]
fn cached_mac_reads_the_table() {
    let mut t: HashMap<u32, String> = HashMap::new();
    t.insert(Ipv4Addr::new(10, 0, 0, 2).to_bits(), "AA:BB:CC:DD:EE:FF".to_string());
    assert_eq!(cached_mac(&t, Ipv4Addr::new(10, 0, 0, 2)), Some("AA:BB:CC:DD:EE:FF".to_string()));
    assert_eq!(cached_mac(&t, Ipv4Addr::new(10, 0, 0, 3)), None);
}

#[test]
fn found_device_gets_mac_and_vendor() {
    let db = mac_oui::Oui::default().unwrap();
    let d = Device::new(Ipv4Addr::new(10, 0, 0, 2), Duration::from_millis(3));
    let d = with_mac_and_vendor(d, Some("00:00:0C:01:02:03".to_string()), Some(&db));
    assert_eq!(d.mac.as_deref(), Some("00:00:0C:01:02:03"));
    assert!(d.vendor.as_deref().map(|v| v.contains("Cisco")).unwrap_or(false));
    let d = with_mac_and_vendor(d, None, Some(&db));
    assert!(d.mac.is_none());
    assert!(d.vendor.is_none());
    let d = with_mac_and_vendor(d, Some("00:00:0C:01:02:03".to_string()), None);
    assert!(d.vendor.is_none());
}
