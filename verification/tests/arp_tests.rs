use scanet::arp::{arp_retry_delays_ms, arp_table_from_output, mac_from_output, parse_arp_line};
use scanet::ipv4::Ipv4Addr;

#[test]
fn test_parse_arp_line_macos_format() {
    let line = "? (192.168.1.1) at aa:bb:cc:dd:ee:ff on en0 ifscope [ethernet]";
    let result = parse_arp_line(line);
    assert!(result.is_some());
    let (ip, mac) = result.unwrap();
    assert_eq!(ip, Ipv4Addr::new(192, 168, 1, 1));
    assert_eq!(mac, "AA:BB:CC:DD:EE:FF");
}

#[test]
fn test_parse_arp_line_linux_format() {
    let line = "? (10.0.0.5) at 11:22:33:44:55:66 [ether] on eth0";
    let result = parse_arp_line(line);
    assert!(result.is_some());
    let (ip, mac) = result.unwrap();
    assert_eq!(ip, Ipv4Addr::new(10, 0, 0, 5));
    assert_eq!(mac, "11:22:33:44:55:66");
}

#[test]
fn test_parse_arp_line_hyphen_mac() {
    let line = "? (192.168.1.100) at aa-bb-cc-dd-ee-ff on en0";
    let result = parse_arp_line(line);
    assert!(result.is_some());
    let (ip, mac) = result.unwrap();
    assert_eq!(ip, Ipv4Addr::new(192, 168, 1, 100));
    assert_eq!(mac, "AA:BB:CC:DD:EE:FF");
}

#[test]
fn test_parse_arp_line_incomplete() {
    let line = "? (192.168.1.1) at (incomplete) on en0";
    let result = parse_arp_line(line);
    assert!(result.is_none());
}

#[test]
fn test_parse_arp_line_incomplete_angle() {
    let line = "? (192.168.1.1) at <incomplete> on en0";
    let result = parse_arp_line(line);
    assert!(result.is_none());
}

#[test]
fn test_parse_arp_line_incomplete_bare() {
    let line = "? (192.168.1.1) at incomplete on en0";
    let result = parse_arp_line(line);
    assert!(result.is_none());
}

#[test]
fn test_parse_arp_line_no_parentheses() {
    let line = "malformed line without parentheses";
    let result = parse_arp_line(line);
    assert!(result.is_none());
}

#[test]
fn test_parse_arp_line_no_at() {
    let line = "? (192.168.1.1) missing the keyword";
    let result = parse_arp_line(line);
    assert!(result.is_none());
}

#[test]
fn test_parse_arp_line_invalid_ip() {
    let line = "? (invalid.ip) at aa:bb:cc:dd:ee:ff on en0";
    let result = parse_arp_line(line);
    assert!(result.is_none());
}

#[test]
fn incomplete_in_any_case_is_skipped() {
    assert!(parse_arp_line("? (192.168.1.1) at InComplete on en0").is_none());
}

#[test]
fn mac_at_end_of_line_is_taken_whole() {
    let (ip, mac) = parse_arp_line("? (192.168.1.9) at 0a:1b:2c:3d:4e:5f").unwrap();
    assert_eq!(ip, Ipv4Addr::new(192, 168, 1, 9));
    assert_eq!(mac, "0A:1B:2C:3D:4E:5F");
}

#[test]
fn table_keeps_the_last_entry_of_an_address() {
    let out = b"? (192.168.1.1) at aa:bb:cc:dd:ee:01 on en0\n\
? (192.168.1.2) at (incomplete) on en0\n\
garbage\n\
? (192.168.1.3) at aa-bb-cc-dd-ee-03 on en0\r\n\
? (192.168.1.1) at aa:bb:cc:dd:ee:09 on en0\n";
    let table = arp_table_from_output(out).unwrap();
    assert_eq!(table.len(), 2);
    assert_eq!(
        table.get(&Ipv4Addr::new(192, 168, 1, 1).to_bits()).map(|s| s.as_str()),
        Some("AA:BB:CC:DD:EE:09")
    );
    assert_eq!(
        table.get(&Ipv4Addr::new(192, 168, 1, 3).to_bits()).map(|s| s.as_str()),
        Some("AA:BB:CC:DD:EE:03")
    );
    assert!(table.get(&Ipv4Addr::new(192, 168, 1, 2).to_bits()).is_none());
}

#[test]
fn empty_output_gives_empty_table() {
    let table = arp_table_from_output(b"").unwrap();
    assert!(table.is_empty());
}

#[test]
fn mac_lookup_takes_the_first_entry_of_the_address() {
    let out = b"? (10.0.0.5) at 11:22:33:44:55:66 [ether] on eth0\n\
? (10.0.0.5) at 99:99:99:99:99:99 [ether] on eth0\n";
    let found = mac_from_output(out, Ipv4Addr::new(10, 0, 0, 5)).unwrap();
    assert_eq!(found.as_deref(), Some("11:22:33:44:55:66"));
    let missing = mac_from_output(out, Ipv4Addr::new(10, 0, 0, 6)).unwrap();
    assert!(missing.is_none());
}

#[test]
fn retry_delays_grow() {
    assert_eq!(arp_retry_delays_ms(), vec![50, 100, 200]);
}

#[test]
fn invalid_utf8_is_replaced_not_dropped() {
    let out: &[u8] = b"\xff? (10.0.0.1) at aa:bb:cc:dd:ee:ff on en0\n";
    let table = arp_table_from_output(out).unwrap();
    assert_eq!(
        table.get(&Ipv4Addr::new(10, 0, 0, 1).to_bits()).map(|s| s.as_str()),
        Some("AA:BB:CC:DD:EE:FF")
    );
}
