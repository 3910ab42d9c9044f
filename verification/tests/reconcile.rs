use hcloud_firewall_controller::config::Config;
use hcloud_firewall_controller::hcloud::ApiCall;
use hcloud_firewall_controller::hcloud::Firewall;
use hcloud_firewall_controller::hcloud::FirewallRule;
use hcloud_firewall_controller::hcloud::FirewallRuleError;
use hcloud_firewall_controller::hcloud::FirewallRuleErrorDetails;
use hcloud_firewall_controller::hcloud::FirewallRuleResponse;
use hcloud_firewall_controller::ip::Family;
use hcloud_firewall_controller::ip::IpDiscoveryError;
use hcloud_firewall_controller::ip::PublicIp;
use hcloud_firewall_controller::reconcile::Action;
use hcloud_firewall_controller::reconcile::Cycle;
use hcloud_firewall_controller::reconcile::Event;
use hcloud_firewall_controller::reconcile::Outcome;
use hcloud_firewall_controller::reconcile::Phase;
use hcloud_firewall_controller::reconcile::TOKEN_PAUSE_MILLIS;
use hcloud_firewall_controller::scheduler::after_cycle;
use hcloud_firewall_controller::scheduler::Schedule;
use std::collections::HashMap;

const V4: PublicIp = PublicIp::V4(0xCB00_7105);
const V6: PublicIp = PublicIp::V6(0x2001_0db8_0001_0002_0000_0000_0000_0001);

fn strings(items: &[&str]) -> Vec<String> {
    items.iter().map(|s| s.to_string()).collect()
}

fn config(tokens: &[&str]) -> Config {
    Config {
        run_once: true,
        hcloud_token: strings(tokens),
        firewall_name: "fw".to_string(),
        tcp: strings(&["80"]),
        udp: vec![],
        icmp: true,
        gre: false,
        esp: false,
        ip: vec![],
        disable_ipv4: false,
        disable_ipv6: true,
        reconciliation_interval: 60,
        ip_endpoint: "https://ip.example".to_string(),
    }
}

fn rule(label: &str, protocol: &str, port: Option<&str>, ips: &[&str]) -> FirewallRule {
    FirewallRule {
        description: Some(label.to_string()),
        destination_ips: vec![],
        direction: "in".to_string(),
        port: port.map(|p| p.to_string()),
        protocol: protocol.to_string(),
        source_ips: strings(ips),
    }
}

fn expected_rules() -> Vec<FirewallRule> {
    vec![
        rule("ICMP", "icmp", None, &["203.0.113.5/32"]),
        rule("TCP-80", "tcp", Some("80"), &["203.0.113.5/32"]),
    ]
}

/// A provider kept in memory: the firewalls of each token, the tokens whose
/// requests fail, and a log of what was asked of it.
struct Mock {
    ip4: Option<PublicIp>,
    ip6: Option<PublicIp>,
    firewalls: HashMap<String, Vec<Firewall>>,
    broken: Vec<String>,
    refuse_rules: bool,
    next_id: u32,
    log: Vec<String>,
    pauses: Vec<u64>,
}

impl Mock {
    fn new() -> Mock {
        Mock {
            ip4: Some(V4),
            ip6: Some(V6),
            firewalls: HashMap::new(),
            broken: vec![],
            refuse_rules: false,
            next_id: 1,
            log: vec![],
            pauses: vec![],
        }
    }

    fn answer(&mut self, action: &Action) -> Event {
        match action {
            Action::DiscoverIp { family } => {
                self.log.push(format!("ip {:?}", family));
                let found = match family {
                    Family::V4 => self.ip4,
                    Family::V6 => self.ip6,
                };
                match found {
                    Some(ip) => Event::Address(ip),
                    None => Event::Failed("HTTP status server error (500)".to_string()),
                }
            }
            Action::Call { token, call } => {
                let kind = match call {
                    ApiCall::ListFirewalls => "list".to_string(),
                    ApiCall::CreateFirewall { name } => format!("create {name}"),
                    ApiCall::SetRules { firewall_id, rules } => {
                        format!("set_rules {firewall_id} {}", rules.len())
                    }
                };
                self.log.push(format!("{token}: {kind}"));
                if self.broken.contains(token) {
                    return Event::Failed("connection refused".to_string());
                }
                let held = self.firewalls.entry(token.clone()).or_default();
                match call {
                    ApiCall::ListFirewalls => Event::Firewalls(held.clone()),
                    ApiCall::CreateFirewall { name } => {
                        let made = Firewall { id: self.next_id, name: name.clone(), rules: vec![] };
                        self.next_id += 1;
                        held.push(made.clone());
                        Event::Created(made)
                    }
                    ApiCall::SetRules { firewall_id, rules } => {
                        if self.refuse_rules {
                            return Event::RulesAnswer(FirewallRuleResponse {
                                error: Some(FirewallRuleError {
                                    code: "invalid_input".to_string(),
                                    message: "bad port".to_string(),
                                    details: FirewallRuleErrorDetails { fields: vec![] },
                                }),
                            });
                        }
                        for firewall in held.iter_mut() {
                            if firewall.id == *firewall_id {
                                firewall.rules = rules.clone();
                            }
                        }
                        Event::RulesAnswer(FirewallRuleResponse { error: None })
                    }
                }
            }
            Action::Pause { millis } => {
                self.pauses.push(*millis);
                Event::Resumed
            }
            Action::Finish { .. } => panic!("nothing is asked of the provider once the cycle is over"),
        }
    }

    fn run(&mut self, config: Config) -> (Cycle, Result<(), IpDiscoveryError>) {
        let (mut cycle, mut action) = Cycle::start(config);
        for _ in 0..1000 {
            if let Action::Finish { outcome } = action {
                return (cycle, outcome);
            }
            let event = self.answer(&action);
            let next = cycle.step(event);
            cycle = next.0;
            action = next.1;
        }
        panic!("the cycle does not end");
    }
}

#[test]
fn create_path() {
    let mut mock = Mock::new();
    let (cycle, outcome) = mock.run(config(&["T"]));
    assert!(outcome.is_ok());
    assert_eq!(mock.log, strings(&["ip V4", "T: list", "T: create fw", "T: set_rules 1 2"]));
    assert_eq!(mock.firewalls["T"].len(), 1);
    assert_eq!(mock.firewalls["T"][0].name, "fw");
    assert_eq!(mock.firewalls["T"][0].rules, expected_rules());
    assert_eq!(cycle.rules(), &expected_rules());
    assert_eq!(cycle.ips(), &strings(&["203.0.113.5/32"]));
    assert!(matches!(cycle.outcomes()[..], [Outcome::Updated { firewall_id: 1 }]));
    assert_eq!(mock.pauses, vec![500]);
    assert!(cycle.is_done());
    assert_eq!(cycle.phase(), Phase::Done);
    assert!(cycle.failure().is_none());
}

#[test]
fn create_path_step_by_step() {
    let (cycle, action) = Cycle::start(config(&["T"]));
    assert_eq!(cycle.phase(), Phase::DiscoverV4);
    assert!(matches!(action, Action::DiscoverIp { family: Family::V4 }));
    let (cycle, action) = cycle.step(Event::Address(V4));
    assert_eq!(cycle.phase(), Phase::List);
    assert_eq!(cycle.position(), 0);
    match action {
        Action::Call { token, call: ApiCall::ListFirewalls } => assert_eq!(token, "T"),
        other => panic!("{other:?}"),
    }
    let (cycle, action) = cycle.step(Event::Firewalls(vec![]));
    assert_eq!(cycle.phase(), Phase::Create);
    match action {
        Action::Call { token, call: ApiCall::CreateFirewall { name } } => {
            assert_eq!(token, "T");
            assert_eq!(name, "fw");
        }
        other => panic!("{other:?}"),
    }
    let (cycle, action) = cycle.step(Event::Created(Firewall { id: 9, name: "fw".to_string(), rules: vec![] }));
    assert_eq!(cycle.phase(), Phase::SetRules { firewall_id: 9 });
    match action {
        Action::Call { token, call } => {
            assert_eq!(token, "T");
            assert!(call.is_post());
            assert_eq!(call.url(), "https://api.hetzner.cloud/v1/firewalls/9/actions/set_rules");
            match call {
                ApiCall::SetRules { firewall_id, rules } => {
                    assert_eq!(firewall_id, 9);
                    assert_eq!(rules, expected_rules());
                }
                other => panic!("{other:?}"),
            }
        }
        other => panic!("{other:?}"),
    }
    let (cycle, action) = cycle.step(Event::RulesAnswer(FirewallRuleResponse { error: None }));
    assert_eq!(cycle.phase(), Phase::Pause);
    assert!(matches!(action, Action::Pause { millis: TOKEN_PAUSE_MILLIS }));
    assert_eq!(TOKEN_PAUSE_MILLIS, 500);
    let (cycle, action) = cycle.step(Event::Resumed);
    assert!(cycle.is_done());
    assert!(matches!(action, Action::Finish { outcome: Ok(()) }));
    let (cycle, action) = cycle.step(Event::Resumed);
    assert!(cycle.is_done());
    assert!(matches!(action, Action::Finish { outcome: Ok(()) }));
    assert_eq!(cycle.into_config().firewall_name, "fw");
}

#[test]
fn no_op_path() {
    let mut mock = Mock::new();
    mock.firewalls.insert(
        "T".to_string(),
        vec![Firewall { id: 5, name: "fw".to_string(), rules: expected_rules() }],
    );
    let (cycle, outcome) = mock.run(config(&["T"]));
    assert!(outcome.is_ok());
    assert_eq!(mock.log, strings(&["ip V4", "T: list"]));
    assert!(matches!(cycle.outcomes()[..], [Outcome::UpToDate { firewall_id: 5 }]));
    assert_eq!(mock.pauses, vec![500]);
}

#[test]
fn ipv6_prefix() {
    let mut mock = Mock::new();
    let mut cfg = config(&["T"]);
    cfg.icmp = false;
    cfg.tcp = strings(&["443"]);
    cfg.disable_ipv4 = true;
    cfg.disable_ipv6 = false;
    let (cycle, outcome) = mock.run(cfg);
    assert!(outcome.is_ok());
    assert_eq!(mock.log[0], "ip V6");
    assert_eq!(cycle.ips(), &strings(&["2001:db8:1:2::/64"]));
    assert_eq!(cycle.rules(), &vec![rule("TCP-443", "tcp", Some("443"), &["2001:db8:1:2::/64"])]);
    assert_eq!(mock.firewalls["T"][0].rules[0].source_ips, strings(&["2001:db8:1:2::/64"]));
}

#[test]
fn static_and_dynamic_sorted() {
    let mut mock = Mock::new();
    let mut cfg = config(&["T"]);
    cfg.ip = strings(&["10.0.0.0/24"]);
    let (cycle, outcome) = mock.run(cfg);
    assert!(outcome.is_ok());
    assert_eq!(cycle.rules().len(), 2);
    for rule in cycle.rules() {
        assert_eq!(rule.source_ips, strings(&["10.0.0.0/24", "203.0.113.5/32"]));
    }
    for rule in &mock.firewalls["T"][0].rules {
        assert_eq!(rule.source_ips, strings(&["10.0.0.0/24", "203.0.113.5/32"]));
    }
}

#[test]
fn per_account_isolation() {
    let mut mock = Mock::new();
    mock.broken = strings(&["A"]);
    let (cycle, outcome) = mock.run(config(&["A", "B"]));
    assert!(outcome.is_ok());
    assert_eq!(mock.log, strings(&["ip V4", "A: list", "B: list", "B: create fw", "B: set_rules 1 2"]));
    assert_eq!(mock.firewalls["B"][0].rules, expected_rules());
    match &cycle.outcomes()[..] {
        [Outcome::TransportFailed(reason), Outcome::Updated { firewall_id: 1 }] => {
            assert_eq!(reason, "connection refused")
        }
        other => panic!("{other:?}"),
    }
    assert_eq!(mock.pauses, vec![500, 500]);
}

#[test]
fn failure_of_create_and_of_set_rules_is_isolated() {
    let (cycle, _) = Cycle::start(config(&["A", "B"]));
    let (cycle, _) = cycle.step(Event::Address(V4));
    let (cycle, _) = cycle.step(Event::Firewalls(vec![]));
    let (cycle, action) = cycle.step(Event::Failed("timeout".to_string()));
    assert!(matches!(action, Action::Pause { millis: 500 }));
    let (cycle, action) = cycle.step(Event::Resumed);
    match action {
        Action::Call { token, call: ApiCall::ListFirewalls } => assert_eq!(token, "B"),
        other => panic!("{other:?}"),
    }
    let (cycle, action) =
        cycle.step(Event::Firewalls(vec![Firewall { id: 3, name: "fw".to_string(), rules: vec![] }]));
    assert!(matches!(action, Action::Call { call: ApiCall::SetRules { firewall_id: 3, .. }, .. }));
    let (cycle, action) = cycle.step(Event::Failed("reset".to_string()));
    assert!(matches!(action, Action::Pause { millis: 500 }));
    let (cycle, action) = cycle.step(Event::Resumed);
    assert!(matches!(action, Action::Finish { outcome: Ok(()) }));
    match &cycle.outcomes()[..] {
        [Outcome::TransportFailed(a), Outcome::TransportFailed(b)] => {
            assert_eq!(a, "timeout");
            assert_eq!(b, "reset");
        }
        other => panic!("{other:?}"),
    }
}

#[test]
fn api_error_is_isolated_and_reported() {
    let mut mock = Mock::new();
    mock.refuse_rules = true;
    let (cycle, outcome) = mock.run(config(&["A", "B"]));
    assert!(outcome.is_ok());
    assert_eq!(
        mock.log,
        strings(&[
            "ip V4",
            "A: list",
            "A: create fw",
            "A: set_rules 1 2",
            "B: list",
            "B: create fw",
            "B: set_rules 2 2"
        ])
    );
    match &cycle.outcomes()[..] {
        [Outcome::ApiFailed(a), Outcome::ApiFailed(_)] => {
            assert_eq!(a.0, "invalid_input: bad port, Original error details: []");
            assert_eq!(
                a.message(),
                "[Error from Hetzner Cloud API] invalid_input: bad port, Original error details: []"
            );
        }
        other => panic!("{other:?}"),
    }
}

#[test]
fn cycle_fatal_ip_failure() {
    let mut mock = Mock::new();
    mock.ip4 = None;
    let (cycle, outcome) = mock.run(config(&["A", "B"]));
    match outcome {
        Err(IpDiscoveryError::Request(reason)) => assert_eq!(reason, "HTTP status server error (500)"),
        other => panic!("{other:?}"),
    }
    assert_eq!(mock.log, strings(&["ip V4"]));
    assert!(mock.pauses.is_empty());
    assert!(cycle.outcomes().is_empty());
    assert!(matches!(cycle.failure(), Some(IpDiscoveryError::Request(_))));
    let (cycle, action) = cycle.step(Event::Firewalls(vec![]));
    assert!(matches!(action, Action::Finish { outcome: Err(IpDiscoveryError::Request(_)) }));
    assert!(cycle.is_done());
}

#[test]
fn ipv6_failure_after_ipv4_is_fatal() {
    let mut mock = Mock::new();
    mock.ip6 = None;
    let mut cfg = config(&["A"]);
    cfg.disable_ipv6 = false;
    let (_, outcome) = mock.run(cfg);
    assert!(matches!(outcome, Err(IpDiscoveryError::Request(_))));
    assert_eq!(mock.log, strings(&["ip V4", "ip V6"]));
}

#[test]
fn address_of_the_wrong_family_is_fatal() {
    let (cycle, _) = Cycle::start(config(&["A"]));
    let (cycle, action) = cycle.step(Event::Address(V6));
    assert!(matches!(action, Action::Finish { outcome: Err(IpDiscoveryError::WrongFamily) }));
    assert!(cycle.is_done());

    let mut cfg = config(&["A"]);
    cfg.disable_ipv6 = false;
    let (cycle, _) = Cycle::start(cfg);
    let (cycle, action) = cycle.step(Event::Address(V4));
    assert!(matches!(action, Action::DiscoverIp { family: Family::V6 }));
    assert_eq!(cycle.phase(), Phase::DiscoverV6 { ip4: Some(V4) });
    let (_, action) = cycle.step(Event::Address(V4));
    assert!(matches!(action, Action::Finish { outcome: Err(IpDiscoveryError::WrongFamily) }));
}

#[test]
fn unexpected_answer_counts_as_failure() {
    let (cycle, _) = Cycle::start(config(&["A", "B"]));
    let (_, action) = cycle.step(Event::Resumed);
    match action {
        Action::Finish { outcome: Err(IpDiscoveryError::Request(reason)) } => {
            assert_eq!(reason, "unexpected answer")
        }
        other => panic!("{other:?}"),
    }

    let (cycle, _) = Cycle::start(config(&["A", "B"]));
    let (cycle, _) = cycle.step(Event::Address(V4));
    let (cycle, action) = cycle.step(Event::Created(Firewall { id: 1, name: "fw".to_string(), rules: vec![] }));
    assert!(matches!(action, Action::Pause { millis: 500 }));
    match &cycle.outcomes()[..] {
        [Outcome::TransportFailed(reason)] => assert_eq!(reason, "unexpected answer"),
        other => panic!("{other:?}"),
    }
}

#[test]
fn second_cycle_sends_nothing() {
    let mut mock = Mock::new();
    mock.firewalls.insert(
        "B".to_string(),
        vec![
            Firewall { id: 7, name: "other".to_string(), rules: vec![] },
            Firewall { id: 8, name: "fw".to_string(), rules: vec![] },
            Firewall { id: 9, name: "fw".to_string(), rules: vec![] },
        ],
    );
    let (cycle, outcome) = mock.run(config(&["A", "B"]));
    assert!(outcome.is_ok());
    assert_eq!(
        mock.log,
        strings(&["ip V4", "A: list", "A: create fw", "A: set_rules 1 2", "B: list", "B: set_rules 8 2"])
    );
    assert!(mock.firewalls["B"][2].rules.is_empty());
    mock.log.clear();
    let (cycle, outcome) = mock.run(cycle.into_config());
    assert!(outcome.is_ok());
    assert_eq!(mock.log, strings(&["ip V4", "A: list", "B: list"]));
    assert!(matches!(
        cycle.outcomes()[..],
        [Outcome::UpToDate { firewall_id: 1 }, Outcome::UpToDate { firewall_id: 8 }]
    ));
}

#[test]
fn both_families_switched_off_and_no_static_address() {
    let mut mock = Mock::new();
    mock.firewalls.insert(
        "T".to_string(),
        vec![Firewall { id: 5, name: "fw".to_string(), rules: expected_rules() }],
    );
    let mut cfg = config(&["T"]);
    cfg.disable_ipv4 = true;
    let (cycle, outcome) = mock.run(cfg);
    assert!(outcome.is_ok());
    assert!(cycle.ips().is_empty());
    assert!(cycle.rules().is_empty());
    assert_eq!(mock.log, strings(&["T: list", "T: set_rules 5 0"]));
    assert!(mock.firewalls["T"][0].rules.is_empty());
}

#[test]
fn no_token_ends_at_once() {
    let mut mock = Mock::new();
    let (cycle, outcome) = mock.run(config(&[]));
    assert!(outcome.is_ok());
    assert_eq!(mock.log, strings(&["ip V4"]));
    assert!(cycle.outcomes().is_empty());
}

#[test]
fn config_copy_is_the_same() {
    let first = config(&["A", "B"]);
    let copy = first.clone();
    assert_eq!(copy.hcloud_token, first.hcloud_token);
    assert_eq!(copy.firewall_name, first.firewall_name);
    assert_eq!(copy.tcp, first.tcp);
    assert_eq!(copy.icmp, first.icmp);
    assert_eq!(copy.disable_ipv6, first.disable_ipv6);
    assert_eq!(copy.reconciliation_interval, 60);
    assert_eq!(copy.ip_endpoint, first.ip_endpoint);
    assert_eq!(copy.rules_for(&strings(&["203.0.113.5/32"])), expected_rules());
    assert_eq!(Cycle::start(copy).0.config().firewall_name, "fw");
}

#[test]
fn config_where_nothing_is_given() {
    let cfg = Config::default();
    assert!(!cfg.run_once);
    assert!(cfg.hcloud_token.is_empty());
    assert_eq!(cfg.firewall_name, "hcloud-firewall-controller");
    assert!(cfg.tcp.is_empty() && cfg.udp.is_empty() && cfg.ip.is_empty());
    assert!(!cfg.icmp && !cfg.gre && !cfg.esp);
    assert!(!cfg.disable_ipv4 && !cfg.disable_ipv6);
    assert_eq!(cfg.reconciliation_interval, 60);
    assert_eq!(cfg.ip_endpoint, "https://ip.fotoallerlei.com");
}

#[test]
fn schedule_after_a_cycle() {
    let mut cfg = config(&["T"]);
    assert_eq!(after_cycle(&cfg, &Ok(())), Schedule::Exit { success: true });
    assert_eq!(after_cycle(&cfg, &Err(IpDiscoveryError::WrongFamily)), Schedule::Exit { success: false });
    cfg.run_once = false;
    assert_eq!(after_cycle(&cfg, &Ok(())), Schedule::Sleep { seconds: 60 });
    assert_eq!(after_cycle(&cfg, &Err(IpDiscoveryError::PrefixLength)), Schedule::Sleep { seconds: 60 });
    cfg.reconciliation_interval = 5;
    assert_eq!(after_cycle(&cfg, &Ok(())), Schedule::Sleep { seconds: 5 });
}
