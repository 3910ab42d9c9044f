//! The rules that a firewall should carry, from the configuration and the
//! address set.

use vstd::prelude::*;
use vstd::string::StringExecFns;
use crate::hcloud::FirewallRule;
use crate::hcloud::RuleView;
use crate::text::clone_texts;

verus! {

/// The rule for a protocol without ports.
pub open spec fn protocol_rule(label: Seq<char>, protocol: Seq<char>, ips: Seq<Seq<char>>) -> RuleView {
    RuleView {
        description: Some(label),
        destination_ips: Seq::empty(),
        direction: "in"@,
        port: None,
        protocol: protocol,
        source_ips: ips,
    }
}

/// The rule for one port, or port range, of a protocol with ports.
pub open spec fn port_rule(label: Seq<char>, protocol: Seq<char>, port: Seq<char>, ips: Seq<Seq<char>>) -> RuleView {
    RuleView {
        description: Some(label + port),
        destination_ips: Seq::empty(),
        direction: "in"@,
        port: Some(port),
        protocol: protocol,
        source_ips: ips,
    }
}

/// The rules for the protocols without ports that are switched on, in the
/// order ICMP, GRE, ESP.
pub open spec fn protocol_rules(icmp: bool, gre: bool, esp: bool, ips: Seq<Seq<char>>) -> Seq<RuleView> {
    (if icmp { seq![protocol_rule("ICMP"@, "icmp"@, ips)] } else { Seq::empty() })
        + (if gre { seq![protocol_rule("GRE"@, "gre"@, ips)] } else { Seq::empty() })
        + (if esp { seq![protocol_rule("ESP"@, "esp"@, ips)] } else { Seq::empty() })
}

/// One rule for each port, in the order of the ports.
pub open spec fn port_rules(label: Seq<char>, protocol: Seq<char>, ports: Seq<Seq<char>>, ips: Seq<Seq<char>>) -> Seq<RuleView> {
    Seq::new(ports.len(), |i: int| port_rule(label, protocol, ports[i], ips))
}

/// The rule list that a firewall should carry. An empty address set gives no
/// rule at all: a rule without sources would admit everybody.
pub open spec fn desired_rules(
    icmp: bool,
    gre: bool,
    esp: bool,
    tcp: Seq<Seq<char>>,
    udp: Seq<Seq<char>>,
    ips: Seq<Seq<char>>,
) -> Seq<RuleView> {
    if ips.len() == 0 {
        Seq::empty()
    } else {
        protocol_rules(icmp, gre, esp, ips) + port_rules("TCP-"@, "tcp"@, tcp, ips) + port_rules(
            "UDP-"@,
            "udp"@,
            udp,
            ips,
        )
    }
}

fn make_protocol_rule(label: &str, protocol: &str, ips: &[String]) -> (rule: FirewallRule)
    ensures
        rule@ == protocol_rule(label@, protocol@, ips.deep_view()),
{
    let rule = FirewallRule {
        description: Some(String::from_str(label)),
        destination_ips: Vec::new(),
        direction: String::from_str("in"),
        port: None,
        protocol: String::from_str(protocol),
        source_ips: clone_texts(ips),
    };
    assert(rule.destination_ips.deep_view() =~= Seq::empty());
    rule
}

fn make_port_rule(label: &str, protocol: &str, port: &String, ips: &[String]) -> (rule: FirewallRule)
    ensures
        rule@ == port_rule(label@, protocol@, port@, ips.deep_view()),
{
    let rule = FirewallRule {
        description: Some(String::from_str(label).concat(port.as_str())),
        destination_ips: Vec::new(),
        direction: String::from_str("in"),
        port: Some(port.clone()),
        protocol: String::from_str(protocol),
        source_ips: clone_texts(ips),
    };
    assert(rule.destination_ips.deep_view() =~= Seq::empty());
    rule
}

fn push_port_rules(rules: &mut Vec<FirewallRule>, label: &str, protocol: &str, ports: &[String], ips: &[String])
    ensures
        final(rules).deep_view() == old(rules).deep_view() + port_rules(
            label@,
            protocol@,
            ports.deep_view(),
            ips.deep_view(),
        ),
{
    let ghost before = rules.deep_view();
    let mut i: usize = 0;
    while i < ports.len()
        invariant
            i <= ports.len(),
            rules.deep_view() == before + port_rules(
                label@,
                protocol@,
                ports.deep_view().take(i as int),
                ips.deep_view(),
            ),
        decreases ports.len() - i,
    {
        let rule = make_port_rule(label, protocol, &ports[i], ips);
        let ghost listed = rules.deep_view();
        rules.push(rule);
        assert(rules.deep_view() =~= listed.push(rule@));
        assert(listed.push(rule@) =~= before + port_rules(
            label@,
            protocol@,
            ports.deep_view().take(i + 1),
            ips.deep_view(),
        ));
        i += 1;
    }
    assert(ports.deep_view().take(i as int) =~= ports.deep_view());
}

/// Composes the rule list that the firewall should carry: nothing for an
/// empty address set; else one rule each for ICMP, GRE and ESP where they are
/// switched on, then one for each TCP port and one for each UDP port, in the
/// order given. Every rule admits exactly the address set.
pub fn build_firewall_rules(
    icmp: &bool,
    gre: &bool,
    esp: &bool,
    tcp: &[String],
    udp: &[String],
    ips: &[String],
) -> (rules: Vec<FirewallRule>)
    ensures
        rules.deep_view() == desired_rules(
            *icmp,
            *gre,
            *esp,
            tcp.deep_view(),
            udp.deep_view(),
            ips.deep_view(),
        ),
{
    let mut rules: Vec<FirewallRule> = Vec::new();
    if ips.len() == 0 {
        assert(rules.deep_view() =~= Seq::empty());
        return rules;
    }
    if *icmp {
        rules.push(make_protocol_rule("ICMP", "icmp", ips));
    }
    if *gre {
        rules.push(make_protocol_rule("GRE", "gre", ips));
    }
    if *esp {
        rules.push(make_protocol_rule("ESP", "esp", ips));
    }
    assert(rules.deep_view() =~= protocol_rules(*icmp, *gre, *esp, ips.deep_view()));
    push_port_rules(&mut rules, "TCP-", "tcp", tcp, ips);
    push_port_rules(&mut rules, "UDP-", "udp", udp, ips);
    rules
}

/// Whether a rule is for one of the protocols without ports.
pub open spec fn is_portless(rule: RuleView) -> bool {
    rule.protocol == "icmp"@ || rule.protocol == "gre"@ || rule.protocol == "esp"@
}

/// Whether a rule is the one for the given port of the given protocol.
pub open spec fn is_for_port(rule: RuleView, protocol: Seq<char>, port: Seq<char>) -> bool {
    rule.protocol == protocol && rule.port == Some(port)
}

/// Without addresses there are no rules, whatever the configuration asks for.
pub proof fn lemma_no_addresses_no_rules(
    icmp: bool,
    gre: bool,
    esp: bool,
    tcp: Seq<Seq<char>>,
    udp: Seq<Seq<char>>,
    ips: Seq<Seq<char>>,
)
    requires
        ips.len() == 0,
    ensures
        desired_rules(icmp, gre, esp, tcp, udp, ips) == Seq::<RuleView>::empty(),
{
}

/// Two rule lists composed from the same inputs are the same list.
pub proof fn lemma_composition_is_deterministic(
    icmp: bool,
    gre: bool,
    esp: bool,
    tcp: Seq<Seq<char>>,
    udp: Seq<Seq<char>>,
    ips: Seq<Seq<char>>,
    first: Seq<RuleView>,
    second: Seq<RuleView>,
)
    requires
        first == desired_rules(icmp, gre, esp, tcp, udp, ips),
        second == desired_rules(icmp, gre, esp, tcp, udp, ips),
    ensures
        first == second,
{
}

/// Every rule admits exactly the address set, is inbound and names no
/// destination.
pub proof fn lemma_every_rule_admits_the_addresses(
    icmp: bool,
    gre: bool,
    esp: bool,
    tcp: Seq<Seq<char>>,
    udp: Seq<Seq<char>>,
    ips: Seq<Seq<char>>,
)
    ensures
        forall|i: int|
            0 <= i < desired_rules(icmp, gre, esp, tcp, udp, ips).len() ==> {
                let rule = #[trigger] desired_rules(icmp, gre, esp, tcp, udp, ips)[i];
                &&& rule.source_ips == ips
                &&& rule.destination_ips.len() == 0
                &&& rule.direction == "in"@
            },
{
}

/// Every rule names one of the five protocols, and a port exactly where the
/// protocol has ports.
pub proof fn lemma_port_goes_with_protocol(
    icmp: bool,
    gre: bool,
    esp: bool,
    tcp: Seq<Seq<char>>,
    udp: Seq<Seq<char>>,
    ips: Seq<Seq<char>>,
)
    ensures
        forall|i: int|
            0 <= i < desired_rules(icmp, gre, esp, tcp, udp, ips).len() ==> {
                let rule = #[trigger] desired_rules(icmp, gre, esp, tcp, udp, ips)[i];
                &&& is_portless(rule) || rule.protocol == "tcp"@ || rule.protocol == "udp"@
                &&& rule.port is Some <==> rule.protocol == "tcp"@ || rule.protocol == "udp"@
            },
{
    lemma_protocols_differ();
}

/// The names of the protocols without ports are not those of the protocols
/// with ports, and TCP is not UDP.
proof fn lemma_protocols_differ()
    ensures
        "icmp"@ != "tcp"@ && "icmp"@ != "udp"@,
        "gre"@ != "tcp"@ && "gre"@ != "udp"@,
        "esp"@ != "tcp"@ && "esp"@ != "udp"@,
        "tcp"@ != "udp"@,
{
    reveal_strlit("icmp");
    reveal_strlit("gre");
    reveal_strlit("esp");
    reveal_strlit("tcp");
    reveal_strlit("udp");
    assert("icmp"@.len() == 4);
    assert("gre"@[0] == 'g');
    assert("esp"@[0] == 'e');
    assert("tcp"@[0] == 't');
}

/// How many rules there are for the protocols without ports.
pub open spec fn portless_count(icmp: bool, gre: bool, esp: bool) -> int {
    (if icmp { 1int } else { 0int }) + (if gre { 1int } else { 0int }) + (if esp { 1int } else { 0int })
}

/// With addresses, the list is laid out in three blocks: the rules for the
/// protocols without ports, then one rule for each TCP port at the place of
/// the port in the configuration, then the same for UDP.
pub proof fn lemma_rule_layout(
    icmp: bool,
    gre: bool,
    esp: bool,
    tcp: Seq<Seq<char>>,
    udp: Seq<Seq<char>>,
    ips: Seq<Seq<char>>,
)
    requires
        ips.len() > 0,
    ensures
        ({
            let rules = desired_rules(icmp, gre, esp, tcp, udp, ips);
            let n = portless_count(icmp, gre, esp);
            &&& protocol_rules(icmp, gre, esp, ips).len() == n
            &&& rules.len() == n + tcp.len() + udp.len()
            &&& forall|i: int| 0 <= i < n ==> is_portless(#[trigger] rules[i]) && rules[i].port is None
            &&& forall|i: int| 0 <= i < tcp.len() ==> is_for_port(#[trigger] rules[n + i], "tcp"@, tcp[i])
            &&& forall|i: int|
                0 <= i < udp.len() ==> is_for_port(#[trigger] rules[n + tcp.len() + i], "udp"@, udp[i])
        }),
{
    let rules = desired_rules(icmp, gre, esp, tcp, udp, ips);
    let n = portless_count(icmp, gre, esp);
    assert forall|i: int| 0 <= i < tcp.len() implies is_for_port(#[trigger] rules[n + i], "tcp"@, tcp[i]) by {
        assert(rules[n + i] == port_rules("TCP-"@, "tcp"@, tcp, ips)[i]);
    }
    assert forall|i: int| 0 <= i < udp.len() implies is_for_port(
        #[trigger] rules[n + tcp.len() + i],
        "udp"@,
        udp[i],
    ) by {
        assert(rules[n + tcp.len() + i] == port_rules("UDP-"@, "udp"@, udp, ips)[i]);
    }
}

/// In the composed list every rule for a protocol without ports stands before
/// every TCP rule, and every TCP rule before every UDP rule.
pub proof fn lemma_rule_ordering(
    icmp: bool,
    gre: bool,
    esp: bool,
    tcp: Seq<Seq<char>>,
    udp: Seq<Seq<char>>,
    ips: Seq<Seq<char>>,
)
    ensures
        ({
            let rules = desired_rules(icmp, gre, esp, tcp, udp, ips);
            forall|i: int, j: int|
                0 <= i < rules.len() && 0 <= j < rules.len() ==> {
                    &&& is_portless(#[trigger] rules[i]) && (#[trigger] rules[j]).protocol == "tcp"@ ==> i < j
                    &&& is_portless(rules[i]) && rules[j].protocol == "udp"@ ==> i < j
                    &&& rules[i].protocol == "tcp"@ && rules[j].protocol == "udp"@ ==> i < j
                }
        }),
{
    lemma_protocols_differ();
    if ips.len() > 0 {
        lemma_rule_layout(icmp, gre, esp, tcp, udp, ips);
        let rules = desired_rules(icmp, gre, esp, tcp, udp, ips);
        let n = portless_count(icmp, gre, esp);
        assert forall|i: int| 0 <= i < rules.len() implies (is_portless(#[trigger] rules[i]) ==> i < n) && (
        rules[i].protocol == "tcp"@ ==> n <= i < n + tcp.len()) && (rules[i].protocol == "udp"@ ==> n + tcp.len()
            <= i) by {
            if i < n {
            } else if i < n + tcp.len() {
                assert(is_for_port(rules[n + (i - n)], "tcp"@, tcp[i - n]));
            } else {
                assert(is_for_port(rules[n + tcp.len() + (i - n - tcp.len())], "udp"@, udp[i - n - tcp.len()]));
            }
        }
    }
}

} // verus!
