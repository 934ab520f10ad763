use std::time::Duration;

use scanet::device::{Device, sort_devices_by_ip};
use scanet::ipv4::Ipv4Addr;

#[test]
fn test_device_new() {
    let ip = Ipv4Addr::new(192, 168, 1, 10);
    let response_time = Duration::from_millis(50);
    let device = Device::new(ip, response_time);

    assert_eq!(device.ip, ip);
    assert_eq!(device.response_time, response_time);
    assert!(device.is_new);
    assert!(device.mac.is_none());
    assert!(device.hostname.is_none());
    assert!(device.vendor.is_none());
}

#[test]
fn clone_keeps_every_field() {
    let mut d = Device::new(Ipv4Addr::new(10, 0, 0, 7), Duration::from_millis(12));
    d.mac = Some("AA:BB:CC:DD:EE:FF".to_string());
    d.hostname = Some("printer".to_string());
    d.is_new = false;
    let c = d.clone();
    assert_eq!(c.ip, d.ip);
    assert_eq!(c.mac, d.mac);
    assert_eq!(c.hostname, d.hostname);
    assert_eq!(c.vendor, None);
    assert_eq!(c.response_time, d.response_time);
    assert_eq!(c.last_seen, d.last_seen);
    assert!(!c.is_new);
}

#[test]
fn sort_devices_orders_by_address_number() {
    let mut v = vec![
        Device::new(Ipv4Addr::new(192, 168, 1, 200), Duration::from_millis(1)),
        Device::new(Ipv4Addr::new(10, 0, 0, 1), Duration::from_millis(1)),
        Device::new(Ipv4Addr::new(192, 168, 1, 3), Duration::from_millis(1)),
        Device::new(Ipv4Addr::new(192, 168, 0, 250), Duration::from_millis(1)),
    ];
    sort_devices_by_ip(&mut v);
    let ips: Vec<Ipv4Addr> = v.iter().map(|d| d.ip).collect();
    assert_eq!(
        ips,
        vec![
            Ipv4Addr::new(10, 0, 0, 1),
            Ipv4Addr::new(192, 168, 0, 250),
            Ipv4Addr::new(192, 168, 1, 3),
            Ipv4Addr::new(192, 168, 1, 200),
        ]
    );
}
