use hcloud_firewall_controller::hcloud::FirewallRule;
use hcloud_firewall_controller::rules::build_firewall_rules;

fn texts(items: &[&str]) -> Vec<String> {
    items.iter().map(|s| s.to_string()).collect()
}

fn without_port(label: &str, protocol: &str, ips: &[&str]) -> FirewallRule {
    FirewallRule {
        description: Some(label.to_string()),
        destination_ips: vec![],
        direction: "in".to_string(),
        port: None,
        protocol: protocol.to_string(),
        source_ips: texts(ips),
    }
}

fn with_port(label: &str, protocol: &str, port: &str, ips: &[&str]) -> FirewallRule {
    FirewallRule {
        description: Some(label.to_string()),
        destination_ips: vec![],
        direction: "in".to_string(),
        port: Some(port.to_string()),
        protocol: protocol.to_string(),
        source_ips: texts(ips),
    }
}

#[test]
fn empty_address_set_gives_no_rules() {
    let rules = build_firewall_rules(&true, &true, &true, &texts(&["80"]), &texts(&["53"]), &[]);
    assert!(rules.is_empty());
}

#[test]
fn no_protocol_and_no_port_gives_no_rules() {
    let rules = build_firewall_rules(&false, &false, &false, &[], &[], &texts(&["10.0.0.0/24"]));
    assert!(rules.is_empty());
}

#[test]
fn icmp_and_one_tcp_port() {
    let ips = ["203.0.113.5/32"];
    let rules = build_firewall_rules(&true, &false, &false, &texts(&["80"]), &[], &texts(&ips));
    assert_eq!(rules, vec![without_port("ICMP", "icmp", &ips), with_port("TCP-80", "tcp", "80", &ips)]);
}

#[test]
fn all_rules_in_their_order() {
    let ips = ["10.0.0.0/24", "203.0.113.5/32"];
    let rules = build_firewall_rules(
        &true,
        &true,
        &true,
        &texts(&["443", "80-85"]),
        &texts(&["53", "1194"]),
        &texts(&ips),
    );
    assert_eq!(
        rules,
        vec![
            without_port("ICMP", "icmp", &ips),
            without_port("GRE", "gre", &ips),
            without_port("ESP", "esp", &ips),
            with_port("TCP-443", "tcp", "443", &ips),
            with_port("TCP-80-85", "tcp", "80-85", &ips),
            with_port("UDP-53", "udp", "53", &ips),
            with_port("UDP-1194", "udp", "1194", &ips),
        ]
    );
}

#[test]
fn gre_and_esp_without_icmp() {
    let ips = ["2001:db8:1:2::/64"];
    let rules = build_firewall_rules(&false, &true, &true, &[], &[], &texts(&ips));
    assert_eq!(rules, vec![without_port("GRE", "gre", &ips), without_port("ESP", "esp", &ips)]);
}

#[test]
fn ports_are_taken_as_they_are() {
    let ips = ["10.0.0.0/24"];
    let rules = build_firewall_rules(&false, &false, &false, &texts(&["not a port", ""]), &[], &texts(&ips));
    assert_eq!(
        rules,
        vec![with_port("TCP-not a port", "tcp", "not a port", &ips), with_port("TCP-", "tcp", "", &ips)]
    );
}

#[test]
fn composing_twice_gives_the_same_list() {
    let ips = texts(&["10.0.0.0/24", "203.0.113.5/32"]);
    let tcp = texts(&["22", "80"]);
    let first = build_firewall_rules(&true, &false, &true, &tcp, &[], &ips);
    let second = build_firewall_rules(&true, &false, &true, &tcp, &[], &ips);
    assert_eq!(first, second);
}

#[test]
fn rules_differ_by_any_field() {
    let base = with_port("TCP-80", "tcp", "80", &["10.0.0.0/24"]);
    assert_eq!(base, base.clone());
    let mut other = base.clone();
    other.description = None;
    assert_ne!(base, other);
    let mut other = base.clone();
    other.destination_ips = texts(&["10.0.0.0/24"]);
    assert_ne!(base, other);
    let mut other = base.clone();
    other.direction = "out".to_string();
    assert_ne!(base, other);
    let mut other = base.clone();
    other.port = Some("81".to_string());
    assert_ne!(base, other);
    let mut other = base.clone();
    other.protocol = "udp".to_string();
    assert_ne!(base, other);
    let mut other = base.clone();
    other.source_ips = texts(&["10.0.0.0/24", "10.0.1.0/24"]);
    assert_ne!(base, other);
}

#[test]
fn rule_lists_are_compared_in_order() {
    let a = without_port("ICMP", "icmp", &["10.0.0.0/24"]);
    let b = without_port("GRE", "gre", &["10.0.0.0/24"]);
    assert_ne!(vec![a.clone(), b.clone()], vec![b, a]);
}
