use multicast_rs::iface::{
    address_candidates, interface_index, mentions_link_local, select_interface_ip, AddrFamily,
    AddressCandidate, ParsedCandidate,
};
use multicast_rs::net::IpAddress;
use multicast_rs::text::{parse_u32_exec, trimmed};

fn chars(s: &str) -> Vec<char> {
    s.chars().collect()
}

const LISTING: &str = "2: eth0: <BROADCAST,MULTICAST,UP,LOWER_UP> mtu 1500 qdisc fq_codel state UP group default qlen 1000
    link/ether 52:54:00:12:34:56 brd ff:ff:ff:ff:ff:ff
    inet 192.168.1.5/24 brd 192.168.1.255 scope global dynamic eth0
       valid_lft 86000sec preferred_lft 86000sec
    inet6 fe80::5054:ff:fe12:3456/64 scope link 
       valid_lft forever preferred_lft forever
";

#[test]
fn candidates_of_an_address_listing() {
    let c = address_candidates(&chars(LISTING));
    assert_eq!(
        c,
        vec![
            AddressCandidate { family: AddrFamily::V4, text: chars("192.168.1.5") },
            AddressCandidate { family: AddrFamily::V6, text: chars("fe80::5054:ff:fe12:3456") },
        ]
    );
}

#[test]
fn candidate_lines_need_a_second_word_and_exact_tag() {
    assert!(address_candidates(&chars("inet\n  inet \ninetx 1.2.3.4\n")).is_empty());
    assert!(address_candidates(&chars("")).is_empty());
    let c = address_candidates(&chars("\r\n\tinet 10.0.0.1\r\ninet6   ::1  \u{a0}x"));
    assert_eq!(
        c,
        vec![
            AddressCandidate { family: AddrFamily::V4, text: chars("10.0.0.1") },
            AddressCandidate { family: AddrFamily::V6, text: chars("::1") },
        ]
    );
}

fn parsed(family: AddrFamily, addr: Option<IpAddress>) -> ParsedCandidate {
    ParsedCandidate { family, addr }
}

#[test]
fn selection_prefers_requested_family() {
    let v4a = IpAddress::V4([10, 0, 0, 1]);
    let v4b = IpAddress::V4([10, 0, 0, 2]);
    let v6 = IpAddress::V6([0x2001, 0xdb8, 0, 0, 0, 0, 0, 1]);
    let ll = IpAddress::V6([0xfe80, 0, 0, 0, 0, 0, 0, 1]);
    let c = vec![
        parsed(AddrFamily::V4, Some(v4a)),
        parsed(AddrFamily::V6, Some(v6)),
        parsed(AddrFamily::V4, Some(v4b)),
        parsed(AddrFamily::V4, None),
        parsed(AddrFamily::V6, Some(ll)),
    ];
    let name = chars("eth0");
    // The last IPv4 address that parsed.
    assert_eq!(select_interface_ip(&c, &name, true), Some(v4b));
    // The link-local address is skipped.
    assert_eq!(select_interface_ip(&c, &name, false), Some(v6));
    // Unless the name asks for link-local addresses.
    let ll_name = chars("eth0-link-local");
    assert!(mentions_link_local(&ll_name));
    assert!(!mentions_link_local(&name));
    assert_eq!(select_interface_ip(&c, &ll_name, false), Some(ll));
}

#[test]
fn selection_falls_back_to_ipv4_and_none() {
    let v4 = IpAddress::V4([10, 0, 0, 1]);
    let ll = IpAddress::V6([0xfe80, 0, 0, 0, 0, 0, 0, 1]);
    let c = vec![parsed(AddrFamily::V4, Some(v4)), parsed(AddrFamily::V6, Some(ll))];
    assert_eq!(select_interface_ip(&c, &chars("eth0"), false), Some(v4));
    assert_eq!(select_interface_ip(&vec![], &chars("eth0"), true), None);
    let only6 = vec![parsed(AddrFamily::V6, Some(IpAddress::V6([0x2001, 0, 0, 0, 0, 0, 0, 1])))];
    assert_eq!(select_interface_ip(&only6, &chars("eth0"), true), None);
}

#[test]
fn index_of_a_link_listing() {
    let listing = "3: eth1: <BROADCAST,MULTICAST,UP> mtu 1500\n    link/ether 00:11:22:33:44:55\n";
    assert_eq!(interface_index(&chars(listing)), 3);
    assert_eq!(interface_index(&chars(" 12 : x")), 12);
    assert_eq!(interface_index(&chars("+7:")), 7);
    assert_eq!(interface_index(&chars("4294967295: big")), 4294967295);
    assert_eq!(interface_index(&chars("4294967296: too big")), 0);
    assert_eq!(interface_index(&chars("abc: x")), 0);
    assert_eq!(interface_index(&chars("")), 0);
    assert_eq!(interface_index(&chars("\n5: x")), 0);
    assert_eq!(interface_index(&chars("-1: x")), 0);
}

#[test]
fn decimal_parsing() {
    assert_eq!(parse_u32_exec(&chars("0")), Some(0));
    assert_eq!(parse_u32_exec(&chars("007")), Some(7));
    assert_eq!(parse_u32_exec(&chars("+")), None);
    assert_eq!(parse_u32_exec(&chars("++1")), None);
    assert_eq!(parse_u32_exec(&chars("12a")), None);
    assert_eq!(parse_u32_exec(&chars("99999999999999999999")), None);
}

#[test]
fn trimming_unicode_whitespace() {
    assert_eq!(trimmed(&chars("\u{3000} a b\u{2028}\t")), chars("a b"));
    assert_eq!(trimmed(&chars(" \n ")), chars(""));
}
