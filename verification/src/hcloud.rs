//! The firewall objects of the Hetzner Cloud API and the decisions taken on
//! its answers.

use vstd::prelude::*;
use vstd::std_specs::cmp::PartialEqSpecImpl;
use vstd::string::StringExecFns;
use crate::text::clone_optional_text;
use crate::text::clone_texts;
use crate::text::decimal;
use crate::text::decimal_text;
use crate::text::optional_text_equal;
use crate::text::texts_equal;

verus! {

/// A JSON value of `serde_json`, carried through as it came.
#[verifier::external_type_specification]
#[verifier::external_body]
pub struct ExValue(serde_json::Value);

/// Where the Hetzner Cloud API lives.
pub const HCLOUD_API: &'static str = "https://api.hetzner.cloud/v1";

/// An error that the Hetzner Cloud API reported, in words.
#[derive(Debug)]
pub struct HcloudError(pub String);

impl View for HcloudError {
    type V = Seq<char>;

    open spec fn view(&self) -> Seq<char> {
        self.0@
    }
}

impl HcloudError {
    /// The error as a line for a log: its words behind a fixed preamble.
    pub fn message(&self) -> (line: String)
        ensures
            line@ == "[Error from Hetzner Cloud API] "@ + self@,
    {
        String::from_str("[Error from Hetzner Cloud API] ").concat(self.0.as_str())
    }
}

/// What a rule says: the mathematical value that two rules are compared by.
pub struct RuleView {
    pub description: Option<Seq<char>>,
    pub destination_ips: Seq<Seq<char>>,
    pub direction: Seq<char>,
    pub port: Option<Seq<char>>,
    pub protocol: Seq<char>,
    pub source_ips: Seq<Seq<char>>,
}

/// One inbound permission of a firewall.
#[derive(Debug)]
pub struct FirewallRule {
    pub description: Option<String>,
    pub destination_ips: Vec<String>,
    pub direction: String,
    pub port: Option<String>,
    pub protocol: String,
    pub source_ips: Vec<String>,
}

impl DeepView for FirewallRule {
    type V = RuleView;

    open spec fn deep_view(&self) -> RuleView {
        RuleView {
            description: self.description.deep_view(),
            destination_ips: self.destination_ips.deep_view(),
            direction: self.direction@,
            port: self.port.deep_view(),
            protocol: self.protocol@,
            source_ips: self.source_ips.deep_view(),
        }
    }
}

impl View for FirewallRule {
    type V = RuleView;

    open spec fn view(&self) -> RuleView {
        self.deep_view()
    }
}

impl Clone for FirewallRule {
    fn clone(&self) -> (copy: FirewallRule)
        ensures
            copy@ == self@,
    {
        FirewallRule {
            description: clone_optional_text(&self.description),
            destination_ips: clone_texts(self.destination_ips.as_slice()),
            direction: self.direction.clone(),
            port: clone_optional_text(&self.port),
            protocol: self.protocol.clone(),
            source_ips: clone_texts(self.source_ips.as_slice()),
        }
    }
}

impl PartialEq for FirewallRule {
    /// Two rules are equal when all six fields are, lists element by element
    /// and in order.
    fn eq(&self, other: &FirewallRule) -> (same: bool) {
        optional_text_equal(&self.description, &other.description) && texts_equal(
            self.destination_ips.as_slice(),
            other.destination_ips.as_slice(),
        ) && self.direction == other.direction && optional_text_equal(&self.port, &other.port)
            && self.protocol == other.protocol && texts_equal(
            self.source_ips.as_slice(),
            other.source_ips.as_slice(),
        )
    }
}

impl PartialEqSpecImpl for FirewallRule {
    open spec fn obeys_eq_spec() -> bool {
        true
    }

    open spec fn eq_spec(&self, other: &FirewallRule) -> bool {
        self@ == other@
    }
}

/// What a firewall is, as far as this library reads it.
pub struct FirewallView {
    pub id: u32,
    pub name: Seq<char>,
    pub rules: Seq<RuleView>,
}

/// A firewall as the API lists it.
#[derive(Debug)]
pub struct Firewall {
    pub id: u32,
    pub name: String,
    pub rules: Vec<FirewallRule>,
}

impl DeepView for Firewall {
    type V = FirewallView;

    open spec fn deep_view(&self) -> FirewallView {
        FirewallView { id: self.id, name: self.name@, rules: self.rules.deep_view() }
    }
}

impl View for Firewall {
    type V = FirewallView;

    open spec fn view(&self) -> FirewallView {
        self.deep_view()
    }
}

impl Clone for Firewall {
    fn clone(&self) -> (copy: Firewall)
        ensures
            copy@ == self@,
    {
        Firewall { id: self.id, name: self.name.clone(), rules: clone_rules(self.rules.as_slice()) }
    }
}

/// A copy of a rule list.
pub fn clone_rules(rules: &[FirewallRule]) -> (copy: Vec<FirewallRule>)
    ensures
        copy.deep_view() == rules.deep_view(),
{
    let mut copy: Vec<FirewallRule> = Vec::new();
    let mut i: usize = 0;
    while i < rules.len()
        invariant
            i <= rules.len(),
            copy.len() == i,
            forall|k: int| 0 <= k < i ==> copy[k]@ == rules[k]@,
        decreases rules.len() - i,
    {
        copy.push(rules[i].clone());
        i += 1;
    }
    assert(copy.deep_view() =~= rules.deep_view());
    copy
}

/// Whether two rule lists hold equal rules in the same order.
pub fn same_rules(left: &Vec<FirewallRule>, right: &Vec<FirewallRule>) -> (same: bool)
    ensures
        same == (left.deep_view() == right.deep_view()),
{
    let same = *left == *right;
    proof {
        if same {
            assert(left.deep_view() =~= right.deep_view());
        } else if left.len() == right.len() {
            let i = choose|i: int| 0 <= i < left.len() && (#[trigger] left[i])@ != right[i]@;
            assert(left.deep_view()[i] != right.deep_view()[i]);
        } else {
            assert(left.deep_view().len() != right.deep_view().len());
        }
    }
    same
}

/// The fields that the API found fault with.
#[derive(Debug)]
pub struct FirewallRuleErrorDetails {
    pub fields: Vec<serde_json::Value>,
}

/// The error object in the answer to a `set_rules` request.
#[derive(Debug)]
pub struct FirewallRuleError {
    pub code: String,
    pub message: String,
    pub details: FirewallRuleErrorDetails,
}

/// The answer to a `set_rules` request.
#[derive(Debug)]
pub struct FirewallRuleResponse {
    pub error: Option<FirewallRuleError>,
}

/// What an error object says.
pub struct FirewallRuleErrorView {
    pub code: Seq<char>,
    pub message: Seq<char>,
    pub fields: Seq<serde_json::Value>,
}

impl View for FirewallRuleError {
    type V = FirewallRuleErrorView;

    open spec fn view(&self) -> FirewallRuleErrorView {
        FirewallRuleErrorView { code: self.code@, message: self.message@, fields: self.details.fields@ }
    }
}

impl View for FirewallRuleResponse {
    type V = Option<FirewallRuleErrorView>;

    open spec fn view(&self) -> Option<FirewallRuleErrorView> {
        match self.error {
            Some(error) => Some(error@),
            None => None,
        }
    }
}

/// The text that the `Debug` of `serde_json::Value` gives a list of values.
pub uninterp spec fn debug_text(fields: Seq<serde_json::Value>) -> Seq<char>;

/// What `format!` with `{:?}` makes of a list of `serde_json` values, by the
/// `Debug` of `Vec` and of `serde_json::Value`: a text that depends on the
/// values alone.
#[verifier::external_body]
fn fields_text(fields: &Vec<serde_json::Value>) -> (text: String)
    ensures
        text@ == debug_text(fields@),
{
    format!("{:?}", fields)
}

/// The words of an error object: its code, its message and the fields it
/// names, as they came.
pub open spec fn error_text(error: FirewallRuleErrorView) -> Seq<char> {
    error.code + ": "@ + error.message + ", Original error details: "@ + debug_text(error.fields)
}

/// What the answer to a `set_rules` request means for the update: it went
/// through unless the answer holds an error object, and then the error says
/// what the object said.
pub fn update_hcloud_firewall(response: &FirewallRuleResponse) -> (outcome: Result<(), HcloudError>)
    ensures
        match outcome {
            Ok(_) => response@ is None,
            Err(failure) => response@ matches Some(error) && failure@ == error_text(error),
        },
{
    match &response.error {
        Some(error) => {
            let text = error.code.clone().concat(": ").concat(error.message.as_str()).concat(
                ", Original error details: ",
            ).concat(fields_text(&error.details.fields).as_str());
            Err(HcloudError(text))
        },
        None => Ok(()),
    }
}

/// The address of the firewall collection: where firewalls are listed with
/// GET and created with POST.
pub fn firewalls_url() -> (url: String)
    ensures
        url@ == HCLOUD_API@ + "/firewalls"@,
{
    String::from_str(HCLOUD_API).concat("/firewalls")
}

/// The address to POST the rule list of a firewall to.
pub fn set_rules_url(firewall_id: u32) -> (url: String)
    ensures
        url@ == HCLOUD_API@ + "/firewalls/"@ + decimal(firewall_id as nat) + "/actions/set_rules"@,
{
    String::from_str(HCLOUD_API).concat("/firewalls/").concat(decimal_text(firewall_id).as_str()).concat(
        "/actions/set_rules",
    )
}

/// A request to the Hetzner Cloud API, without the token that it is sent
/// with.
#[derive(Debug)]
pub enum ApiCall {
    /// GET the firewalls of the project.
    ListFirewalls,
    /// POST a new firewall; the body is an object whose `name` is the name.
    CreateFirewall { name: String },
    /// POST the rule list of a firewall; the body is an object whose `rules`
    /// are the rules.
    SetRules { firewall_id: u32, rules: Vec<FirewallRule> },
}

/// What an `ApiCall` says.
pub enum ApiCallView {
    ListFirewalls,
    CreateFirewall { name: Seq<char> },
    SetRules { firewall_id: u32, rules: Seq<RuleView> },
}

impl View for ApiCall {
    type V = ApiCallView;

    open spec fn view(&self) -> ApiCallView {
        match self {
            ApiCall::ListFirewalls => ApiCallView::ListFirewalls,
            ApiCall::CreateFirewall { name } => ApiCallView::CreateFirewall { name: name@ },
            ApiCall::SetRules { firewall_id, rules } => ApiCallView::SetRules {
                firewall_id: *firewall_id,
                rules: rules.deep_view(),
            },
        }
    }
}

impl ApiCallView {
    /// The address that the request goes to.
    pub open spec fn url(self) -> Seq<char> {
        match self {
            ApiCallView::ListFirewalls => HCLOUD_API@ + "/firewalls"@,
            ApiCallView::CreateFirewall { .. } => HCLOUD_API@ + "/firewalls"@,
            ApiCallView::SetRules { firewall_id, .. } => HCLOUD_API@ + "/firewalls/"@ + decimal(
                firewall_id as nat,
            ) + "/actions/set_rules"@,
        }
    }

    /// Whether the request is a POST; else it is a GET.
    pub open spec fn is_post(self) -> bool {
        !(self is ListFirewalls)
    }
}

impl ApiCall {
    /// The address that the request goes to.
    pub fn url(&self) -> (url: String)
        ensures
            url@ == self@.url(),
    {
        match self {
            ApiCall::ListFirewalls => firewalls_url(),
            ApiCall::CreateFirewall { .. } => firewalls_url(),
            ApiCall::SetRules { firewall_id, .. } => set_rules_url(*firewall_id),
        }
    }

    /// Whether the request is a POST; else it is a GET.
    pub fn is_post(&self) -> (post: bool)
        ensures
            post == self@.is_post(),
    {
        match self {
            ApiCall::ListFirewalls => false,
            _ => true,
        }
    }
}

/// Whether the firewall at an index is the first of a list with a name.
pub open spec fn is_first_named(firewalls: Seq<FirewallView>, name: Seq<char>, at: int) -> bool {
    &&& 0 <= at < firewalls.len()
    &&& firewalls[at].name == name
    &&& forall|k: int| 0 <= k < at ==> (#[trigger] firewalls[k]).name != name
}

/// The index of the first firewall with a name at or behind an index.
pub open spec fn first_named_from(firewalls: Seq<FirewallView>, name: Seq<char>, from: int) -> Option<int>
    decreases firewalls.len() - from,
{
    if from < 0 || from >= firewalls.len() {
        None
    } else if firewalls[from].name == name {
        Some(from)
    } else {
        first_named_from(firewalls, name, from + 1)
    }
}

/// The index of the first firewall of a list with a name.
pub open spec fn first_named(firewalls: Seq<FirewallView>, name: Seq<char>) -> Option<int> {
    first_named_from(firewalls, name, 0)
}

/// What to do for the firewall of a name, once the firewalls are listed.
#[derive(Debug)]
pub enum FirewallLookup {
    /// The firewall exists: the first one listed with the name.
    Found(Firewall),
    /// No firewall has the name: one is to be created with it.
    Create { name: String },
}

/// What a `FirewallLookup` says.
pub enum FirewallLookupView {
    Found(FirewallView),
    Create { name: Seq<char> },
}

impl View for FirewallLookup {
    type V = FirewallLookupView;

    open spec fn view(&self) -> FirewallLookupView {
        match self {
            FirewallLookup::Found(firewall) => FirewallLookupView::Found(firewall@),
            FirewallLookup::Create { name } => FirewallLookupView::Create { name: name@ },
        }
    }
}

/// The firewall to work on among those listed, or the order to create it.
pub open spec fn lookup(firewalls: Seq<FirewallView>, name: Seq<char>) -> FirewallLookupView {
    match first_named(firewalls, name) {
        Some(at) => FirewallLookupView::Found(firewalls[at]),
        None => FirewallLookupView::Create { name },
    }
}

/// Picks the firewall to work on from the firewalls that the API listed: the
/// first whose name is exactly the one asked for. Where none has it, the
/// firewall is to be created under that name.
pub fn get_or_create_firewall(firewalls: Vec<Firewall>, firewall_name: &String) -> (found: FirewallLookup)
    ensures
        found@ == lookup(firewalls.deep_view(), firewall_name@),
{
    let ghost listed = firewalls.deep_view();
    let mut rest = firewalls;
    let mut i: usize = 0;
    while i < rest.len()
        invariant
            i <= rest.len(),
            rest.deep_view() == listed,
            listed == firewalls.deep_view(),
            first_named(listed, firewall_name@) == first_named_from(listed, firewall_name@, i as int),
        decreases rest.len() - i,
    {
        assert(rest[i as int]@ == listed[i as int]);
        if rest[i].name == *firewall_name {
            let firewall = rest.swap_remove(i);
            return FirewallLookup::Found(firewall);
        }
        i += 1;
    }
    FirewallLookup::Create { name: firewall_name.clone() }
}

/// The first firewall with a name is the one that `first_named` gives, and
/// it gives none only where no firewall has the name.
pub proof fn lemma_first_named(firewalls: Seq<FirewallView>, name: Seq<char>)
    ensures
        match first_named(firewalls, name) {
            Some(at) => is_first_named(firewalls, name, at),
            None => forall|k: int| 0 <= k < firewalls.len() ==> (#[trigger] firewalls[k]).name != name,
        },
{
    lemma_first_named_from(firewalls, name, 0);
}

proof fn lemma_first_named_from(firewalls: Seq<FirewallView>, name: Seq<char>, from: int)
    requires
        0 <= from,
    ensures
        match first_named_from(firewalls, name, from) {
            Some(at) => from <= at < firewalls.len() && firewalls[at].name == name && forall|k: int|
                from <= k < at ==> (#[trigger] firewalls[k]).name != name,
            None => forall|k: int| from <= k < firewalls.len() ==> (#[trigger] firewalls[k]).name != name,
        },
    decreases firewalls.len() - from,
{
    if from < firewalls.len() && firewalls[from].name != name {
        lemma_first_named_from(firewalls, name, from + 1);
    }
}

} // verus!
