use iptools::ip::{format_cidr, format_ipv4, host_addresses, host_count, parse_cidr, parse_ipv4, prefix_mask};

fn chars(s: &str) -> Vec<char> {
    s.chars().collect()
}

#[test]
fn parse_ipv4_accepts_dotted_quad() {
    assert_eq!(parse_ipv4(&chars("192.168.1.0")), Some(0xC0A80100));
    assert_eq!(parse_ipv4(&chars("0.0.0.0")), Some(0));
    assert_eq!(parse_ipv4(&chars("255.255.255.255")), Some(0xFFFFFFFF));
    assert_eq!(parse_ipv4(&chars("8.8.8.8")), Some(0x08080808));
}

#[test]
fn parse_ipv4_rejects_malformed() {
    assert_eq!(parse_ipv4(&chars("")), None);
    assert_eq!(parse_ipv4(&chars("1.2.3")), None);
    assert_eq!(parse_ipv4(&chars("1.2.3.4.5")), None);
    assert_eq!(parse_ipv4(&chars("1.2.3.256")), None);
    assert_eq!(parse_ipv4(&chars("01.2.3.4")), None);
    assert_eq!(parse_ipv4(&chars("a.b.c.d")), None);
    assert_eq!(parse_ipv4(&chars("1..2.3")), None);
    assert_eq!(parse_ipv4(&chars("1.2.3.")), None);
}

#[test]
fn parse_cidr_accepts_blocks() {
    assert_eq!(parse_cidr(&chars("192.168.1.0/24")), Some((0xC0A80100, 24)));
    assert_eq!(parse_cidr(&chars("10.0.0.0/30")), Some((0x0A000000, 30)));
    assert_eq!(parse_cidr(&chars("0.0.0.0/0")), Some((0, 0)));
    assert_eq!(parse_cidr(&chars("1.2.3.4/32")), Some((0x01020304, 32)));
}

#[test]
fn parse_cidr_rejects_malformed() {
    assert_eq!(parse_cidr(&chars("192.168.1.0")), None);
    assert_eq!(parse_cidr(&chars("192.168.1.0/33")), None);
    assert_eq!(parse_cidr(&chars("192.168.1.0/24/8")), None);
    assert_eq!(parse_cidr(&chars("192.168.1.256/24")), None);
    assert_eq!(parse_cidr(&chars("/24")), None);
    assert_eq!(parse_cidr(&chars("192.168.1.0/")), None);
    assert_eq!(parse_cidr(&chars("192.168.1.0/a")), None);
    assert_eq!(parse_cidr(&chars("not a cidr")), None);
}

#[test]
fn host_count_excludes_edges_below_31() {
    assert_eq!(host_count(24), 254);
    assert_eq!(host_count(30), 2);
    assert_eq!(host_count(16), 65534);
    assert_eq!(host_count(0), 4294967294);
}

#[test]
fn host_count_keeps_every_address_at_31_and_32() {
    assert_eq!(host_count(31), 2);
    assert_eq!(host_count(32), 1);
}

#[test]
fn host_addresses_skip_network_and_broadcast() {
    let hosts = host_addresses(0x0A000000, 30);
    assert_eq!(hosts, vec![0x0A000001, 0x0A000002]);
    let hosts24 = host_addresses(0xC0A80100, 24);
    assert_eq!(hosts24.len(), 254);
    assert_eq!(hosts24[0], 0xC0A80101);
    assert_eq!(hosts24[253], 0xC0A801FE);
}

#[test]
fn host_addresses_cover_whole_point_to_point_blocks() {
    assert_eq!(host_addresses(0x0A000000, 31), vec![0x0A000000, 0x0A000001]);
    assert_eq!(host_addresses(0x0A000001, 32), vec![0x0A000001]);
}

#[test]
fn prefix_mask_values() {
    assert_eq!(prefix_mask(0), 0);
    assert_eq!(prefix_mask(24), 0xFFFFFF00);
    assert_eq!(prefix_mask(32), 0xFFFFFFFF);
}

#[test]
fn format_ipv4_round_trips() {
    for ip in [0u32, 1, 0x08080808, 0xC0A80164, 0xFFFFFFFF, 0x0A000000] {
        let text = format_ipv4(ip);
        assert_eq!(parse_ipv4(&text), Some(ip));
    }
    let text: String = format_ipv4(0xC0A80101).into_iter().collect();
    assert_eq!(text, "192.168.1.1");
}

#[test]
fn format_cidr_round_trips() {
    let text = format_cidr(0xC0A80100, 24);
    assert_eq!(parse_cidr(&text), Some((0xC0A80100, 24)));
    let shown: String = text.into_iter().collect();
    assert_eq!(shown, "192.168.1.0/24");
}
