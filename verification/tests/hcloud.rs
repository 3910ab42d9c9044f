use hcloud_firewall_controller::hcloud::firewalls_url;
use hcloud_firewall_controller::hcloud::get_or_create_firewall;
use hcloud_firewall_controller::hcloud::same_rules;
use hcloud_firewall_controller::hcloud::set_rules_url;
use hcloud_firewall_controller::hcloud::update_hcloud_firewall;
use hcloud_firewall_controller::hcloud::Firewall;
use hcloud_firewall_controller::hcloud::FirewallLookup;
use hcloud_firewall_controller::hcloud::FirewallRule;
use hcloud_firewall_controller::hcloud::FirewallRuleError;
use hcloud_firewall_controller::hcloud::FirewallRuleErrorDetails;
use hcloud_firewall_controller::hcloud::FirewallRuleResponse;
use hcloud_firewall_controller::hcloud::HcloudError;
use hcloud_firewall_controller::hcloud::HCLOUD_API;

fn rule(port: &str) -> FirewallRule {
    FirewallRule {
        description: Some(format!("TCP-{port}")),
        destination_ips: vec![],
        direction: "in".to_string(),
        port: Some(port.to_string()),
        protocol: "tcp".to_string(),
        source_ips: vec!["10.0.0.0/24".to_string()],
    }
}

fn firewall(id: u32, name: &str) -> Firewall {
    Firewall { id, name: name.to_string(), rules: vec![rule("80")] }
}

#[test]
fn api_base() {
    assert_eq!(HCLOUD_API, "https://api.hetzner.cloud/v1");
}

#[test]
fn urls_of_the_requests() {
    assert_eq!(firewalls_url(), "https://api.hetzner.cloud/v1/firewalls");
    assert_eq!(set_rules_url(42), "https://api.hetzner.cloud/v1/firewalls/42/actions/set_rules");
    assert_eq!(set_rules_url(0), "https://api.hetzner.cloud/v1/firewalls/0/actions/set_rules");
    assert_eq!(
        set_rules_url(u32::MAX),
        "https://api.hetzner.cloud/v1/firewalls/4294967295/actions/set_rules"
    );
}

#[test]
fn error_line_for_the_log() {
    let error = HcloudError("invalid_input: bad".to_string());
    assert_eq!(error.message(), "[Error from Hetzner Cloud API] invalid_input: bad");
}

#[test]
fn first_firewall_of_the_name_is_found() {
    let listed = vec![firewall(1, "other"), firewall(2, "fw"), firewall(3, "fw")];
    match get_or_create_firewall(listed, &"fw".to_string()) {
        FirewallLookup::Found(found) => {
            assert_eq!(found.id, 2);
            assert_eq!(found.name, "fw");
            assert_eq!(found.rules, vec![rule("80")]);
        }
        FirewallLookup::Create { .. } => panic!("the firewall is listed"),
    }
}

#[test]
fn name_match_is_exact() {
    let listed = vec![firewall(1, "FW"), firewall(2, "fw "), firewall(3, "f")];
    match get_or_create_firewall(listed, &"fw".to_string()) {
        FirewallLookup::Found(_) => panic!("no firewall has the name"),
        FirewallLookup::Create { name } => assert_eq!(name, "fw"),
    }
}

#[test]
fn empty_listing_asks_for_creation() {
    match get_or_create_firewall(vec![], &"fw".to_string()) {
        FirewallLookup::Found(_) => panic!("nothing is listed"),
        FirewallLookup::Create { name } => assert_eq!(name, "fw"),
    }
}

#[test]
fn answer_without_error_is_success() {
    assert!(update_hcloud_firewall(&FirewallRuleResponse { error: None }).is_ok());
}

#[test]
fn answer_with_error_carries_the_diagnostic() {
    let mut field = serde_json::Map::new();
    field.insert("name".to_string(), serde_json::Value::String("rules[0].port".to_string()));
    field.insert(
        "messages".to_string(),
        serde_json::Value::Array(vec![serde_json::Value::String("invalid port".to_string())]),
    );
    let response = FirewallRuleResponse {
        error: Some(FirewallRuleError {
            code: "invalid_input".to_string(),
            message: "invalid input in field 'rules'".to_string(),
            details: FirewallRuleErrorDetails { fields: vec![serde_json::Value::Object(field)] },
        }),
    };
    let error = update_hcloud_firewall(&response).unwrap_err();
    assert_eq!(
        error.0,
        "invalid_input: invalid input in field 'rules', Original error details: \
         [Object {\"messages\": Array [String(\"invalid port\")], \"name\": String(\"rules[0].port\")}]"
    );
    assert_eq!(
        error.message(),
        "[Error from Hetzner Cloud API] invalid_input: invalid input in field 'rules', Original error \
         details: [Object {\"messages\": Array [String(\"invalid port\")], \"name\": \
         String(\"rules[0].port\")}]"
    );
}

#[test]
fn answer_with_error_without_fields() {
    let response = FirewallRuleResponse {
        error: Some(FirewallRuleError {
            code: "locked".to_string(),
            message: "busy".to_string(),
            details: FirewallRuleErrorDetails { fields: vec![] },
        }),
    };
    assert_eq!(update_hcloud_firewall(&response).unwrap_err().0, "locked: busy, Original error details: []");
}

#[test]
fn rule_lists_equal_and_not() {
    assert!(same_rules(&vec![], &vec![]));
    assert!(same_rules(&vec![rule("80"), rule("443")], &vec![rule("80"), rule("443")]));
    assert!(!same_rules(&vec![rule("80"), rule("443")], &vec![rule("443"), rule("80")]));
    assert!(!same_rules(&vec![rule("80")], &vec![rule("80"), rule("443")]));
    assert!(!same_rules(&vec![rule("80")], &vec![]));
}

#[test]
fn firewall_copy_is_the_same() {
    let first = firewall(7, "fw");
    let copy = first.clone();
    assert_eq!(copy.id, 7);
    assert_eq!(copy.name, "fw");
    assert_eq!(copy.rules, first.rules);
}
