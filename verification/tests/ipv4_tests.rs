use scanet::cidr::cidr_host_range;
use scanet::ipv4::Ipv4Addr;

#[test]
fn octets_and_bits_agree() {
    let ip = Ipv4Addr::new(192, 168, 1, 10);
    assert_eq!(ip.octets(), [192, 168, 1, 10]);
    assert_eq!(ip.to_bits(), 0xC0A8_010A);
    assert_eq!(Ipv4Addr::from_bits(0xC0A8_010A), ip);
}

#[test]
fn text_round_trip() {
    for ip in [
        Ipv4Addr::new(0, 0, 0, 0),
        Ipv4Addr::new(255, 255, 255, 255),
        Ipv4Addr::new(10, 0, 100, 7),
    ] {
        assert_eq!(Ipv4Addr::parse(ip.to_string().as_str()), Some(ip));
    }
    assert_eq!(Ipv4Addr::new(10, 0, 100, 7).to_string(), "10.0.100.7");
}

#[test]
fn parse_follows_dotted_decimal_grammar() {
    assert_eq!(Ipv4Addr::parse("1.2.3.4"), Some(Ipv4Addr::new(1, 2, 3, 4)));
    assert_eq!(Ipv4Addr::parse("1.2.3"), None);
    assert_eq!(Ipv4Addr::parse("1.2.3.4.5"), None);
    assert_eq!(Ipv4Addr::parse("1.2.3.256"), None);
    assert_eq!(Ipv4Addr::parse("01.2.3.4"), None);
    assert_eq!(Ipv4Addr::parse("1.2..4"), None);
    assert_eq!(Ipv4Addr::parse("+1.2.3.4"), None);
    assert_eq!(Ipv4Addr::parse(""), None);
}

#[test]
fn cidr_blocks() {
    let ip = Ipv4Addr::new(192, 168, 1, 77).to_bits();
    assert_eq!(
        cidr_host_range(ip, 24),
        (Ipv4Addr::new(192, 168, 1, 1).to_bits(), Ipv4Addr::new(192, 168, 1, 254).to_bits())
    );
    assert_eq!(
        cidr_host_range(ip, 26),
        (Ipv4Addr::new(192, 168, 1, 65).to_bits(), Ipv4Addr::new(192, 168, 1, 126).to_bits())
    );
    assert_eq!(cidr_host_range(ip, 32), (ip, ip));
}
