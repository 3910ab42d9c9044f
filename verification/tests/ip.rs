use hcloud_firewall_controller::ip::build_ips;
use hcloud_firewall_controller::ip::ipv4_text;
use hcloud_firewall_controller::ip::ipv6_network_cidr;
use hcloud_firewall_controller::ip::Family;
use hcloud_firewall_controller::ip::IpDiscoveryError;
use hcloud_firewall_controller::ip::PublicIp;
use hcloud_firewall_controller::sorting::sorted_texts;
use hcloud_firewall_controller::sorting::text_at_most;
use hcloud_firewall_controller::text::decimal_text;

fn strings(items: &[&str]) -> Vec<String> {
    items.iter().map(|s| s.to_string()).collect()
}

const V4: u32 = 0xCB00_7105;
const V6: u128 = 0x2001_0db8_0001_0002_0000_0000_0000_0001;

#[test]
fn decimal_text_of_numbers() {
    assert_eq!(decimal_text(0), "0");
    assert_eq!(decimal_text(7), "7");
    assert_eq!(decimal_text(10), "10");
    assert_eq!(decimal_text(64), "64");
    assert_eq!(decimal_text(255), "255");
    assert_eq!(decimal_text(1234567890), "1234567890");
    assert_eq!(decimal_text(u32::MAX), "4294967295");
}

#[test]
fn ipv4_text_is_dotted_decimal() {
    assert_eq!(ipv4_text(V4), "203.0.113.5");
    assert_eq!(ipv4_text(0), "0.0.0.0");
    assert_eq!(ipv4_text(u32::MAX), "255.255.255.255");
    assert_eq!(ipv4_text(0x0A00_0001), "10.0.0.1");
}

#[test]
fn ipv6_network_is_masked() {
    assert_eq!(ipv6_network_cidr(V6, 64).unwrap(), "2001:db8:1:2::/64");
    assert_eq!(ipv6_network_cidr(V6, 128).unwrap(), "2001:db8:1:2::1/128");
    assert_eq!(ipv6_network_cidr(V6, 0).unwrap(), "::/0");
    assert_eq!(ipv6_network_cidr(V6, 32).unwrap(), "2001:db8::/32");
    assert_eq!(ipv6_network_cidr(u128::MAX, 64).unwrap(), "ffff:ffff:ffff:ffff::/64");
}

#[test]
fn ipv6_prefix_over_128_is_refused() {
    assert!(matches!(ipv6_network_cidr(V6, 129), Err(IpDiscoveryError::PrefixLength)));
    assert!(matches!(ipv6_network_cidr(V6, 255), Err(IpDiscoveryError::PrefixLength)));
}

#[test]
fn family_of_an_address() {
    assert_eq!(PublicIp::V4(V4).family(), Family::V4);
    assert_eq!(PublicIp::V6(V6).family(), Family::V6);
}

#[test]
fn ipv6_prefix_alone() {
    let ips = build_ips(&[], None, Some(PublicIp::V6(V6))).unwrap();
    assert_eq!(ips, strings(&["2001:db8:1:2::/64"]));
}

#[test]
fn static_and_discovered_are_sorted() {
    let ips = build_ips(&strings(&["10.0.0.0/24"]), Some(PublicIp::V4(V4)), None).unwrap();
    assert_eq!(ips, strings(&["10.0.0.0/24", "203.0.113.5/32"]));
}

#[test]
fn both_families_and_statics() {
    let statics = strings(&["9.9.9.0/24", "fd00::/8", "10.0.0.0/24"]);
    let ips = build_ips(&statics, Some(PublicIp::V4(V4)), Some(PublicIp::V6(V6))).unwrap();
    assert_eq!(
        ips,
        strings(&["10.0.0.0/24", "2001:db8:1:2::/64", "203.0.113.5/32", "9.9.9.0/24", "fd00::/8"])
    );
}

#[test]
fn nothing_discovered_and_nothing_static() {
    assert_eq!(build_ips(&[], None, None).unwrap(), Vec::<String>::new());
}

#[test]
fn duplicates_are_kept() {
    let statics = strings(&["203.0.113.5/32", "10.0.0.0/24", "10.0.0.0/24"]);
    let ips = build_ips(&statics, Some(PublicIp::V4(V4)), None).unwrap();
    assert_eq!(ips, strings(&["10.0.0.0/24", "10.0.0.0/24", "203.0.113.5/32", "203.0.113.5/32"]));
}

#[test]
fn wrong_family_is_refused() {
    assert!(matches!(build_ips(&[], Some(PublicIp::V6(V6)), None), Err(IpDiscoveryError::WrongFamily)));
    assert!(matches!(build_ips(&[], None, Some(PublicIp::V4(V4))), Err(IpDiscoveryError::WrongFamily)));
    assert!(matches!(
        build_ips(&strings(&["10.0.0.0/24"]), Some(PublicIp::V4(V4)), Some(PublicIp::V4(V4))),
        Err(IpDiscoveryError::WrongFamily)
    ));
}

#[test]
fn strings_are_ordered_by_bytes() {
    assert!(text_at_most("", ""));
    assert!(text_at_most("", "a"));
    assert!(!text_at_most("a", ""));
    assert!(text_at_most("10.0.0.0/24", "203.0.113.5/32"));
    assert!(!text_at_most("203.0.113.5/32", "10.0.0.0/24"));
    assert!(text_at_most("abc", "abc"));
    assert!(text_at_most("abc", "abcd"));
    assert!(!text_at_most("abd", "abcd"));
    assert!(text_at_most("Z", "a"));
    assert!(text_at_most("z", "\u{e9}"));
    assert!(text_at_most("\u{e9}", "\u{4e2d}"));
}

#[test]
fn sorting_agrees_with_std() {
    let items = strings(&["b", "a", "", "10.0.0.0/8", "2001:db8::/64", "a", "B", "10.0.0.0/24", "\u{e9}"]);
    let mut expected = items.clone();
    expected.sort();
    assert_eq!(sorted_texts(&items), expected);
}
