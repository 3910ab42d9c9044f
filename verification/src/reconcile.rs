//! One reconciliation cycle, as the decisions between its requests.
//!
//! A cycle never performs a request. It names the next one as an `Action`;
//! the caller performs it and hands back what came of it as an `Event`. The
//! cycle first asks for the public addresses, then takes the projects in
//! turn: list the firewalls, create the firewall where it is missing, send
//! the rules where they differ, pause.

use vstd::prelude::*;
use crate::config::Config;
use crate::config::ConfigView;
use crate::hcloud::ApiCall;
use crate::hcloud::ApiCallView;
use crate::hcloud::clone_rules;
use crate::hcloud::error_text;
use crate::hcloud::Firewall;
use crate::hcloud::FirewallLookup;
use crate::hcloud::FirewallLookupView;
use crate::hcloud::FirewallRule;
use crate::hcloud::FirewallRuleErrorView;
use crate::hcloud::FirewallRuleResponse;
use crate::hcloud::FirewallView;
use crate::hcloud::get_or_create_firewall;
use crate::hcloud::HcloudError;
use crate::hcloud::lookup;
use crate::hcloud::RuleView;
use crate::hcloud::same_rules;
use crate::hcloud::update_hcloud_firewall;
use crate::ip::address_set;
use crate::ip::build_ips;
use crate::ip::Family;
use crate::ip::IpDiscoveryError;
use crate::ip::IpDiscoveryErrorView;
use crate::ip::lemma_address_set_holds_what_went_in;
use crate::ip::PublicIp;
use crate::rules::lemma_every_rule_admits_the_addresses;
use crate::sorting::is_sorted;

verus! {

/// The milliseconds to rest after each project, so as not to press the API.
pub const TOKEN_PAUSE_MILLIS: u64 = 500;

/// What the caller is to do next.
#[derive(Debug)]
pub enum Action {
    /// GET the address endpoint over a socket of the family, trim the answer
    /// and read it as an address.
    DiscoverIp { family: Family },
    /// Send a request to the API with the token.
    Call { token: String, call: ApiCall },
    /// Rest.
    Pause { millis: u64 },
    /// The cycle is over.
    Finish { outcome: Result<(), IpDiscoveryError> },
}

/// What an `Action` says.
pub enum ActionView {
    DiscoverIp { family: Family },
    Call { token: Seq<char>, call: ApiCallView },
    Pause { millis: u64 },
    Finish { outcome: Result<(), IpDiscoveryErrorView> },
}

impl View for Action {
    type V = ActionView;

    open spec fn view(&self) -> ActionView {
        match self {
            Action::DiscoverIp { family } => ActionView::DiscoverIp { family: *family },
            Action::Call { token, call } => ActionView::Call { token: token@, call: call@ },
            Action::Pause { millis } => ActionView::Pause { millis: *millis },
            Action::Finish { outcome } => ActionView::Finish {
                outcome: match outcome {
                    Ok(_) => Ok(()),
                    Err(error) => Err(error@),
                },
            },
        }
    }
}

/// What came of the last action.
#[derive(Debug)]
pub enum Event {
    /// The endpoint answered with this address.
    Address(PublicIp),
    /// The API listed these firewalls.
    Firewalls(Vec<Firewall>),
    /// The API created this firewall.
    Created(Firewall),
    /// The API answered the rule list with this.
    RulesAnswer(FirewallRuleResponse),
    /// The request failed, or its answer could not be read.
    Failed(String),
    /// The rest is over.
    Resumed,
}

/// What an `Event` says.
pub enum EventView {
    Address(PublicIp),
    Firewalls(Seq<FirewallView>),
    Created(FirewallView),
    RulesAnswer(Option<FirewallRuleErrorView>),
    Failed(Seq<char>),
    Resumed,
}

impl View for Event {
    type V = EventView;

    open spec fn view(&self) -> EventView {
        match self {
            Event::Address(ip) => EventView::Address(*ip),
            Event::Firewalls(firewalls) => EventView::Firewalls(firewalls.deep_view()),
            Event::Created(firewall) => EventView::Created(firewall@),
            Event::RulesAnswer(response) => EventView::RulesAnswer(response@),
            Event::Failed(reason) => EventView::Failed(reason@),
            Event::Resumed => EventView::Resumed,
        }
    }
}

/// How the pass over one project ended.
#[derive(Debug)]
pub enum Outcome {
    /// The firewall already had the rules.
    UpToDate { firewall_id: u32 },
    /// The rules were sent and taken.
    Updated { firewall_id: u32 },
    /// A request failed on the way, or its answer could not be read.
    TransportFailed(String),
    /// The API refused the rules.
    ApiFailed(HcloudError),
}

/// What an `Outcome` says.
pub enum OutcomeView {
    UpToDate { firewall_id: u32 },
    Updated { firewall_id: u32 },
    TransportFailed(Seq<char>),
    ApiFailed(Seq<char>),
}

impl DeepView for Outcome {
    type V = OutcomeView;

    open spec fn deep_view(&self) -> OutcomeView {
        match self {
            Outcome::UpToDate { firewall_id } => OutcomeView::UpToDate { firewall_id: *firewall_id },
            Outcome::Updated { firewall_id } => OutcomeView::Updated { firewall_id: *firewall_id },
            Outcome::TransportFailed(reason) => OutcomeView::TransportFailed(reason@),
            Outcome::ApiFailed(error) => OutcomeView::ApiFailed(error@),
        }
    }
}

impl View for Outcome {
    type V = OutcomeView;

    open spec fn view(&self) -> OutcomeView {
        self.deep_view()
    }
}

/// What a cycle waits for.
#[derive(Clone, Copy, Debug, PartialEq, Eq, Structural)]
pub enum Phase {
    /// The public IPv4 address.
    DiscoverV4,
    /// The public IPv6 address; the IPv4 address is known, unless switched off.
    DiscoverV6 { ip4: Option<PublicIp> },
    /// The firewalls of the project at hand.
    List,
    /// The firewall that is being created in the project at hand.
    Create,
    /// The answer to the rules sent to a firewall of the project at hand.
    SetRules { firewall_id: u32 },
    /// The end of the rest after the project at hand.
    Pause,
    /// Nothing: the cycle is over.
    Done,
}

/// What the caller sees in place of an answer that the cycle did not wait
/// for.
pub open spec fn unexpected() -> Seq<char> {
    "unexpected answer"@
}

/// A cycle in progress.
#[derive(Debug)]
pub struct Cycle {
    config: Config,
    phase: Phase,
    ips: Vec<String>,
    rules: Vec<FirewallRule>,
    position: usize,
    outcomes: Vec<Outcome>,
    failure: Option<IpDiscoveryError>,
}

/// What a `Cycle` holds.
pub struct CycleView {
    /// The configuration that the cycle runs under.
    pub config: ConfigView,
    /// What the cycle waits for.
    pub phase: Phase,
    /// The address set, once discovered.
    pub ips: Seq<Seq<char>>,
    /// The rules that every firewall should carry, once the address set is
    /// known.
    pub rules: Seq<RuleView>,
    /// The index of the project at hand among the tokens.
    pub position: nat,
    /// How the pass over each project before the one at hand ended.
    pub outcomes: Seq<OutcomeView>,
    /// Why the cycle was given up, if it was.
    pub failure: Option<IpDiscoveryErrorView>,
}

impl View for Cycle {
    type V = CycleView;

    closed spec fn view(&self) -> CycleView {
        CycleView {
            config: self.config@,
            phase: self.phase,
            ips: self.ips.deep_view(),
            rules: self.rules.deep_view(),
            position: self.position as nat,
            outcomes: self.outcomes.deep_view(),
            failure: match self.failure {
                Some(error) => Some(error@),
                None => None,
            },
        }
    }
}

impl CycleView {
    /// The token of the project at hand.
    pub open spec fn token(self) -> Seq<char> {
        if self.position < self.config.hcloud_token.len() {
            self.config.hcloud_token[self.position as int]
        } else {
            Seq::empty()
        }
    }

    /// The cycle is over, with this outcome.
    pub open spec fn finish(self) -> (CycleView, ActionView) {
        (
            CycleView { phase: Phase::Done, ..self },
            ActionView::Finish {
                outcome: match self.failure {
                    Some(error) => Err(error),
                    None => Ok(()),
                },
            },
        )
    }

    /// The cycle is given up.
    pub open spec fn give_up(self, error: IpDiscoveryErrorView) -> (CycleView, ActionView) {
        CycleView { failure: Some(error), ..self }.finish()
    }

    /// Turns to the project at an index, or ends the cycle behind the last.
    pub open spec fn turn_to(self, position: nat) -> (CycleView, ActionView) {
        if position < self.config.hcloud_token.len() {
            (
                CycleView { phase: Phase::List, position, ..self },
                ActionView::Call {
                    token: self.config.hcloud_token[position as int],
                    call: ApiCallView::ListFirewalls,
                },
            )
        } else {
            self.finish()
        }
    }

    /// The addresses are known: the address set and the rules are made, and
    /// the first project is turned to. An address of the wrong family ends
    /// the cycle.
    pub open spec fn discovered(self, ip4: Option<PublicIp>, ip6: Option<PublicIp>) -> (CycleView, ActionView) {
        match address_set(self.config.ip, ip4, ip6) {
            Ok(ips) => CycleView { ips, rules: self.config.rules_for(ips), ..self }.turn_to(0),
            Err(error) => self.give_up(error),
        }
    }

    /// The IPv4 address is known, or not looked for: IPv6 is next.
    pub open spec fn discovered_v4(self, ip4: Option<PublicIp>) -> (CycleView, ActionView) {
        if self.config.disable_ipv6 {
            self.discovered(ip4, None)
        } else {
            (
                CycleView { phase: Phase::DiscoverV6 { ip4 }, ..self },
                ActionView::DiscoverIp { family: Family::V6 },
            )
        }
    }

    /// The pass over the project at hand ends; a rest follows.
    pub open spec fn close(self, outcome: OutcomeView) -> (CycleView, ActionView) {
        (
            CycleView { phase: Phase::Pause, outcomes: self.outcomes.push(outcome), ..self },
            ActionView::Pause { millis: TOKEN_PAUSE_MILLIS },
        )
    }

    /// The firewall of the project at hand is known: its rules are sent
    /// where they differ from what they should be, and only then.
    pub open spec fn compare(self, firewall: FirewallView) -> (CycleView, ActionView) {
        if firewall.rules == self.rules {
            self.close(OutcomeView::UpToDate { firewall_id: firewall.id })
        } else {
            (
                CycleView { phase: Phase::SetRules { firewall_id: firewall.id }, ..self },
                ActionView::Call {
                    token: self.token(),
                    call: ApiCallView::SetRules { firewall_id: firewall.id, rules: self.rules },
                },
            )
        }
    }

    /// What an answer that is no address means while one is waited for.
    pub open spec fn no_address(event: EventView) -> IpDiscoveryErrorView {
        match event {
            EventView::Failed(reason) => IpDiscoveryErrorView::Request(reason),
            _ => IpDiscoveryErrorView::Request(unexpected()),
        }
    }

    /// What an answer other than the one waited for means for the project
    /// at hand.
    pub open spec fn no_answer(event: EventView) -> OutcomeView {
        match event {
            EventView::Failed(reason) => OutcomeView::TransportFailed(reason),
            _ => OutcomeView::TransportFailed(unexpected()),
        }
    }

    /// Whether the cycle waits for an answer of the API about the project at
    /// hand.
    pub open spec fn in_account(self) -> bool {
        self.phase is List || self.phase is Create || self.phase is SetRules
    }

    /// Whether the address set is in order and the rules are those that the
    /// configuration asks for it.
    pub open spec fn is_prepared(self) -> bool {
        is_sorted(self.ips) && self.rules == self.config.rules_for(self.ips)
    }

    /// What holds of every cycle that came from `start` by steps: until the
    /// addresses are known no project has been looked at; from then on the
    /// address set is sorted and the rules are those that the configuration
    /// asks for it; the projects before the one at hand have their outcome,
    /// each one; and a cycle that was given up has not looked at any.
    pub open spec fn well_formed(self) -> bool {
        match self.phase {
            Phase::DiscoverV4 | Phase::DiscoverV6 { .. } => self.outcomes.len() == 0 && self.failure is None,
            Phase::List | Phase::Create | Phase::SetRules { .. } => {
                &&& self.failure is None
                &&& self.is_prepared()
                &&& self.position < self.config.hcloud_token.len()
                &&& self.outcomes.len() == self.position
            },
            Phase::Pause => {
                &&& self.failure is None
                &&& self.is_prepared()
                &&& self.position < self.config.hcloud_token.len()
                &&& self.outcomes.len() == self.position + 1
            },
            Phase::Done => match self.failure {
                Some(_) => self.outcomes.len() == 0,
                None => self.is_prepared() && self.outcomes.len() == self.config.hcloud_token.len(),
            },
        }
    }

    /// The firewall that an event hands to the cycle: the first one of the
    /// name in a listing, or the one just created.
    pub open spec fn delivered(self, event: EventView) -> Option<FirewallView> {
        match (self.phase, event) {
            (Phase::List, EventView::Firewalls(firewalls)) => match lookup(firewalls, self.config.firewall_name) {
                FirewallLookupView::Found(firewall) => Some(firewall),
                FirewallLookupView::Create { .. } => None,
            },
            (Phase::Create, EventView::Created(firewall)) => Some(firewall),
            _ => None,
        }
    }

    /// Whether an event is the answer that the cycle waits for from the API,
    /// and a good one.
    pub open spec fn answers(self, event: EventView) -> bool {
        match (self.phase, event) {
            (Phase::List, EventView::Firewalls(_)) => true,
            (Phase::Create, EventView::Created(_)) => true,
            (Phase::SetRules { .. }, EventView::RulesAnswer(None)) => true,
            _ => false,
        }
    }

    /// Whether an event is the address that the cycle waits for.
    pub open spec fn is_awaited_address(self, event: EventView) -> bool {
        match (self.phase, event) {
            (Phase::DiscoverV4, EventView::Address(PublicIp::V4(_))) => true,
            (Phase::DiscoverV6 { .. }, EventView::Address(PublicIp::V6(_))) => true,
            _ => false,
        }
    }

    /// The cycle after an event, and what to do next.
    pub open spec fn step(self, event: EventView) -> (CycleView, ActionView) {
        match self.phase {
            Phase::DiscoverV4 => match event {
                EventView::Address(PublicIp::V4(addr)) => self.discovered_v4(Some(PublicIp::V4(addr))),
                EventView::Address(PublicIp::V6(_)) => self.give_up(IpDiscoveryErrorView::WrongFamily),
                _ => self.give_up(Self::no_address(event)),
            },
            Phase::DiscoverV6 { ip4 } => match event {
                EventView::Address(PublicIp::V6(addr)) => self.discovered(ip4, Some(PublicIp::V6(addr))),
                EventView::Address(PublicIp::V4(_)) => self.give_up(IpDiscoveryErrorView::WrongFamily),
                _ => self.give_up(Self::no_address(event)),
            },
            Phase::List => match event {
                EventView::Firewalls(firewalls) => match lookup(firewalls, self.config.firewall_name) {
                    FirewallLookupView::Found(firewall) => self.compare(firewall),
                    FirewallLookupView::Create { name } => (
                        CycleView { phase: Phase::Create, ..self },
                        ActionView::Call { token: self.token(), call: ApiCallView::CreateFirewall { name } },
                    ),
                },
                _ => self.close(Self::no_answer(event)),
            },
            Phase::Create => match event {
                EventView::Created(firewall) => self.compare(firewall),
                _ => self.close(Self::no_answer(event)),
            },
            Phase::SetRules { firewall_id } => match event {
                EventView::RulesAnswer(None) => self.close(OutcomeView::Updated { firewall_id }),
                EventView::RulesAnswer(Some(error)) => self.close(OutcomeView::ApiFailed(error_text(error))),
                _ => self.close(Self::no_answer(event)),
            },
            Phase::Pause => self.turn_to(self.position + 1),
            Phase::Done => self.finish(),
        }
    }
}

/// A cycle at its start, and what to do first.
pub open spec fn start(config: ConfigView) -> (CycleView, ActionView) {
    let cycle = CycleView {
        config,
        phase: Phase::DiscoverV4,
        ips: Seq::empty(),
        rules: Seq::empty(),
        position: 0,
        outcomes: Seq::empty(),
        failure: None,
    };
    if config.disable_ipv4 {
        cycle.discovered_v4(None)
    } else {
        (cycle, ActionView::DiscoverIp { family: Family::V4 })
    }
}

/// The actions that a cycle names, one after each of the events.
pub open spec fn run(cycle: CycleView, events: Seq<EventView>) -> Seq<ActionView>
    decreases events.len(),
{
    if events.len() == 0 {
        Seq::empty()
    } else {
        seq![cycle.step(events[0]).1] + run(cycle.step(events[0]).0, events.drop_first())
    }
}

/// A cycle at its start is well formed.
pub proof fn lemma_start_is_well_formed(config: ConfigView)
    ensures
        start(config).0.well_formed(),
{
    if address_set(config.ip, None, None) is Ok {
        lemma_address_set_holds_what_went_in(config.ip, None, None);
    }
}

/// A step of a well-formed cycle gives a well-formed cycle under the same
/// configuration.
pub proof fn lemma_step_keeps_well_formed(cycle: CycleView, event: EventView)
    requires
        cycle.well_formed(),
    ensures
        cycle.step(event).0.well_formed(),
        cycle.step(event).0.config == cycle.config,
{
    match (cycle.phase, event) {
        (Phase::DiscoverV4, EventView::Address(ip4)) => {
            if address_set(cycle.config.ip, Some(ip4), None) is Ok {
                lemma_address_set_holds_what_went_in(cycle.config.ip, Some(ip4), None);
            }
        },
        (Phase::DiscoverV6 { ip4 }, EventView::Address(ip6)) => {
            if address_set(cycle.config.ip, ip4, Some(ip6)) is Ok {
                lemma_address_set_holds_what_went_in(cycle.config.ip, ip4, Some(ip6));
            }
        },
        _ => {},
    }
}

/// A firewall whose rules are what they should be is left alone: the pass
/// over its project ends without a call, and the rest follows.
pub proof fn lemma_equal_rules_are_left_alone(cycle: CycleView, event: EventView, firewall: FirewallView)
    requires
        cycle.well_formed(),
        cycle.delivered(event) == Some(firewall),
        firewall.rules == cycle.config.rules_for(cycle.ips),
    ensures
        cycle.step(event) == cycle.close(OutcomeView::UpToDate { firewall_id: firewall.id }),
        cycle.step(event).1 == (ActionView::Pause { millis: TOKEN_PAUSE_MILLIS }),
{
}

/// Rules are sent only to a firewall that an event has just handed over and
/// whose rules differ; what is sent is what the configuration asks for the
/// address set, under the token of the project at hand.
pub proof fn lemma_rules_are_sent_only_where_they_differ(cycle: CycleView, event: EventView)
    requires
        cycle.well_formed(),
    ensures
        cycle.step(event).1 matches ActionView::Call {
            token,
            call: ApiCallView::SetRules { firewall_id, rules },
        } ==> {
            &&& token == cycle.token()
            &&& rules == cycle.config.rules_for(cycle.ips)
            &&& cycle.delivered(event) matches Some(firewall) && firewall.id == firewall_id && firewall.rules
                != rules
        },
{
}

/// No rule is ever sent that admits everybody: every rule of a list that is
/// sent names the address set as its sources, and the set is not empty.
pub proof fn lemma_sent_rules_name_their_sources(cycle: CycleView, event: EventView)
    requires
        cycle.well_formed(),
    ensures
        cycle.step(event).1 matches ActionView::Call { call: ApiCallView::SetRules { rules, .. }, .. }
            ==> forall|i: int|
            0 <= i < rules.len() ==> (#[trigger] rules[i]).source_ips == cycle.ips && rules[i].source_ips.len() > 0,
{
    lemma_rules_are_sent_only_where_they_differ(cycle, event);
    let config = cycle.config;
    lemma_every_rule_admits_the_addresses(config.icmp, config.gre, config.esp, config.tcp, config.udp, cycle.ips);
}

/// A firewall is created only where a listing holds none of the name, and
/// under that name.
pub proof fn lemma_firewall_is_created_only_where_missing(cycle: CycleView, event: EventView)
    requires
        cycle.well_formed(),
    ensures
        cycle.step(event).1 matches ActionView::Call { token, call: ApiCallView::CreateFirewall { name } } ==> {
            &&& token == cycle.token()
            &&& name == cycle.config.firewall_name
            &&& cycle.phase is List
            &&& event matches EventView::Firewalls(firewalls) && forall|k: int|
                0 <= k < firewalls.len() ==> (#[trigger] firewalls[k]).name != name
        },
{
    if let EventView::Firewalls(firewalls) = event {
        crate::hcloud::lemma_first_named(firewalls, cycle.config.firewall_name);
    }
}

/// The projects are taken in the order of the tokens. Whatever ends the rest
/// after a project, the next action is the listing of the project behind it,
/// under the same rules, or the good end of the cycle behind the last; the
/// outcomes noted so far stay.
pub proof fn lemma_projects_are_taken_in_turn(paused: CycleView, event: EventView)
    requires
        paused.well_formed(),
        paused.phase is Pause,
    ensures
        ({
            let (next, action) = paused.step(event);
            &&& next.well_formed()
            &&& next.config == paused.config && next.ips == paused.ips && next.rules == paused.rules
            &&& next.outcomes == paused.outcomes
            &&& if paused.position + 1 < paused.config.hcloud_token.len() {
                &&& next.phase is List
                &&& next.position == paused.position + 1
                &&& action == ActionView::Call {
                    token: paused.config.hcloud_token[paused.position as int + 1],
                    call: ApiCallView::ListFirewalls,
                }
            } else {
                &&& next.phase is Done
                &&& next.failure is None
                &&& action == ActionView::Finish { outcome: Ok(()) }
            }
        }),
{
}

/// The pass over a project names calls for that project only, and ends in
/// the rest: while the cycle waits for an answer of the API, the next action
/// is a call under the token of the project at hand, or the rest.
pub proof fn lemma_pass_stays_with_its_project(cycle: CycleView, event: EventView)
    requires
        cycle.well_formed(),
        cycle.in_account(),
    ensures
        ({
            let (next, action) = cycle.step(event);
            &&& next.position == cycle.position
            &&& match action {
                ActionView::Call { token, call } => {
                    &&& token == cycle.config.hcloud_token[cycle.position as int]
                    &&& !(call is ListFirewalls)
                    &&& next.in_account()
                    &&& next.outcomes == cycle.outcomes
                },
                ActionView::Pause { millis } => {
                    &&& millis == TOKEN_PAUSE_MILLIS
                    &&& next.phase is Pause
                    &&& next.outcomes.len() == cycle.outcomes.len() + 1
                },
                _ => false,
            }
        }),
{
}

/// A failure in one project stays there. Whatever comes in place of the
/// answer waited for, or an error in the answer to the rules, ends the pass
/// over the project at hand with a failed outcome and a rest; what follows
/// the rest is the listing of the next project, under the same rules, or
/// the good end of the cycle behind the last project.
pub proof fn lemma_account_failure_is_isolated(cycle: CycleView, event: EventView, later: EventView)
    requires
        cycle.well_formed(),
        cycle.in_account(),
        !cycle.answers(event),
    ensures
        ({
            let (paused, rest) = cycle.step(event);
            let (next, action) = paused.step(later);
            &&& rest == ActionView::Pause { millis: TOKEN_PAUSE_MILLIS }
            &&& paused.phase == Phase::Pause
            &&& paused.outcomes.drop_last() == cycle.outcomes
            &&& paused.outcomes.last() is TransportFailed || paused.outcomes.last() is ApiFailed
            &&& next.config == cycle.config && next.ips == cycle.ips && next.rules == cycle.rules
            &&& next.failure is None
            &&& if cycle.position + 1 < cycle.config.hcloud_token.len() {
                &&& next.phase == Phase::List
                &&& next.position == cycle.position + 1
                &&& action == ActionView::Call {
                    token: cycle.config.hcloud_token[cycle.position as int + 1],
                    call: ApiCallView::ListFirewalls,
                }
            } else {
                &&& next.phase == Phase::Done
                &&& action == ActionView::Finish { outcome: Ok(()) }
            }
        }),
{
    let (paused, rest) = cycle.step(event);
    assert(paused.outcomes.drop_last() =~= cycle.outcomes);
}

/// The pass over a project ends the same way for what follows, however it
/// went: after the rest the cycle is as it would be after any other end of
/// that pass, but for the outcomes it has noted.
pub proof fn lemma_next_project_does_not_depend_on_the_last(
    cycle: CycleView,
    one: OutcomeView,
    other: OutcomeView,
    later: EventView,
)
    requires
        cycle.well_formed(),
        cycle.in_account(),
    ensures
        ({
            let (first, first_action) = cycle.close(one).0.step(later);
            let (second, second_action) = cycle.close(other).0.step(later);
            &&& first_action == second_action
            &&& first == CycleView { outcomes: first.outcomes, ..second }
        }),
{
}

/// A failed discovery is the end of the cycle. Where the address waited for
/// does not come, the cycle names no call, then or ever after: all it says
/// from there on is that it is over, with the error.
pub proof fn lemma_discovery_failure_is_fatal(cycle: CycleView, events: Seq<EventView>)
    requires
        cycle.well_formed(),
        cycle.phase is DiscoverV4 || cycle.phase is DiscoverV6,
        events.len() > 0,
        !cycle.is_awaited_address(events[0]),
    ensures
        run(cycle, events).len() == events.len(),
        cycle.step(events[0]).0.outcomes.len() == 0,
        forall|i: int|
            0 <= i < events.len() ==> (#[trigger] run(cycle, events)[i]) == cycle.step(events[0]).1 && (run(
                cycle,
                events,
            )[i] matches ActionView::Finish { outcome: Err(_) }),
{
    let (over, action) = cycle.step(events[0]);
    lemma_given_up_stays_given_up(over, events.drop_first());
    assert forall|i: int| 0 <= i < events.len() implies (#[trigger] run(cycle, events)[i]) == action by {
        if i > 0 {
            assert(run(cycle, events)[i] == run(over, events.drop_first())[i - 1]);
        }
    }
}

/// A cycle that is over says so at every event, and nothing else.
pub proof fn lemma_given_up_stays_given_up(cycle: CycleView, events: Seq<EventView>)
    requires
        cycle.phase is Done,
    ensures
        run(cycle, events).len() == events.len(),
        forall|i: int| 0 <= i < events.len() ==> (#[trigger] run(cycle, events)[i]) == cycle.finish().1,
    decreases events.len(),
{
    if events.len() > 0 {
        let (over, action) = cycle.step(events[0]);
        assert(over == cycle);
        lemma_given_up_stays_given_up(cycle, events.drop_first());
        assert forall|i: int| 0 <= i < events.len() implies (#[trigger] run(cycle, events)[i])
            == cycle.finish().1 by {
            if i > 0 {
                assert(run(cycle, events)[i] == run(over, events.drop_first())[i - 1]);
            }
        }
    }
}

/// No call is named before both addresses are known: while the cycle waits
/// for an address, the next action is a call only where the awaited address
/// has come and the address set could be made from it.
pub proof fn lemma_no_call_before_discovery(cycle: CycleView, event: EventView)
    requires
        cycle.well_formed(),
        cycle.phase is DiscoverV4 || cycle.phase is DiscoverV6,
        cycle.step(event).1 is Call,
    ensures
        cycle.is_awaited_address(event),
        cycle.step(event).0.phase is List,
        cycle.step(event).0.position == 0,
        cycle.step(event).0.is_prepared(),
{
    lemma_step_keeps_well_formed(cycle, event);
}

impl Cycle {
    #[verifier::type_invariant]
    spec fn is_well_formed(self) -> bool {
        self@.well_formed()
    }

    /// What the cycle waits for.
    pub fn phase(&self) -> (phase: Phase)
        ensures
            phase == self@.phase,
    {
        self.phase
    }

    /// Whether the cycle is over.
    pub fn is_done(&self) -> (done: bool)
        ensures
            done == (self@.phase == Phase::Done),
    {
        match self.phase {
            Phase::Done => true,
            _ => false,
        }
    }

    /// The configuration that the cycle runs under.
    pub fn config(&self) -> (config: &Config)
        ensures
            config@ == self@.config,
    {
        &self.config
    }

    /// The configuration, for the next cycle.
    pub fn into_config(self) -> (config: Config)
        ensures
            config@ == self@.config,
    {
        self.config
    }

    /// The address set; empty until it is discovered.
    pub fn ips(&self) -> (ips: &Vec<String>)
        ensures
            ips.deep_view() == self@.ips,
    {
        &self.ips
    }

    /// The rules that every firewall should carry; empty until the address
    /// set is discovered.
    pub fn rules(&self) -> (rules: &Vec<FirewallRule>)
        ensures
            rules.deep_view() == self@.rules,
    {
        &self.rules
    }

    /// The index of the project at hand among the tokens.
    pub fn position(&self) -> (position: usize)
        ensures
            position == self@.position,
    {
        self.position
    }

    /// How the pass over each project ended, in the order of the tokens.
    pub fn outcomes(&self) -> (outcomes: &Vec<Outcome>)
        ensures
            outcomes.deep_view() == self@.outcomes,
    {
        &self.outcomes
    }

    /// Why the cycle was given up, if it was.
    pub fn failure(&self) -> (failure: &Option<IpDiscoveryError>)
        ensures
            match failure {
                Some(error) => self@.failure == Some(error@),
                None => self@.failure is None,
            },
    {
        &self.failure
    }

    fn token(&self) -> (token: String)
        ensures
            token@ == self@.token(),
    {
        if self.position < self.config.hcloud_token.len() {
            self.config.hcloud_token[self.position].clone()
        } else {
            String::new()
        }
    }

    fn finish(self) -> (next: (Cycle, Action))
        requires
            self@.finish().0.well_formed(),
        ensures
            (next.0@, next.1@) == self@.finish(),
    {
        let outcome = match &self.failure {
            Some(error) => Err(error.clone()),
            None => Ok(()),
        };
        (Cycle { phase: Phase::Done, ..self }, Action::Finish { outcome })
    }

    fn give_up(self, error: IpDiscoveryError) -> (next: (Cycle, Action))
        requires
            self@.phase is DiscoverV4 || self@.phase is DiscoverV6,
        ensures
            (next.0@, next.1@) == self@.give_up(error@),
    {
        proof {
            use_type_invariant(&self);
        }
        let outcome = Err(error.clone());
        (Cycle { phase: Phase::Done, failure: Some(error), ..self }, Action::Finish { outcome })
    }

    fn turn_to(self, position: usize) -> (next: (Cycle, Action))
        requires
            self@.failure is None,
            self@.is_prepared(),
            self@.outcomes.len() == position,
            position <= self@.config.hcloud_token.len(),
        ensures
            (next.0@, next.1@) == self@.turn_to(position as nat),
    {
        if position < self.config.hcloud_token.len() {
            let token = self.config.hcloud_token[position].clone();
            (Cycle { phase: Phase::List, position, ..self }, Action::Call { token, call: ApiCall::ListFirewalls })
        } else {
            self.finish()
        }
    }

    fn discovered(self, ip4: Option<PublicIp>, ip6: Option<PublicIp>) -> (next: (Cycle, Action))
        requires
            self@.phase is DiscoverV4 || self@.phase is DiscoverV6,
        ensures
            (next.0@, next.1@) == self@.discovered(ip4, ip6),
    {
        proof {
            use_type_invariant(&self);
        }
        match build_ips(self.config.ip.as_slice(), ip4, ip6) {
            Ok(ips) => {
                let rules = self.config.rules_for(ips.as_slice());
                Cycle { ips, rules, ..self }.turn_to(0)
            },
            Err(error) => self.give_up(error),
        }
    }

    fn discovered_v4(self, ip4: Option<PublicIp>) -> (next: (Cycle, Action))
        requires
            self@.phase is DiscoverV4,
        ensures
            (next.0@, next.1@) == self@.discovered_v4(ip4),
    {
        proof {
            use_type_invariant(&self);
        }
        if self.config.disable_ipv6 {
            self.discovered(ip4, None)
        } else {
            (Cycle { phase: Phase::DiscoverV6 { ip4 }, ..self }, Action::DiscoverIp { family: Family::V6 })
        }
    }

    fn close(self, outcome: Outcome) -> (next: (Cycle, Action))
        requires
            self@.in_account(),
        ensures
            (next.0@, next.1@) == self@.close(outcome@),
    {
        proof {
            use_type_invariant(&self);
        }
        let ghost before = self.outcomes.deep_view();
        let mut outcomes = self.outcomes;
        outcomes.push(outcome);
        assert(outcomes.deep_view() =~= before.push(outcome@));
        (Cycle { phase: Phase::Pause, outcomes, ..self }, Action::Pause { millis: TOKEN_PAUSE_MILLIS })
    }

    fn compare(self, firewall: Firewall) -> (next: (Cycle, Action))
        requires
            self@.in_account(),
        ensures
            (next.0@, next.1@) == self@.compare(firewall@),
    {
        proof {
            use_type_invariant(&self);
        }
        if same_rules(&firewall.rules, &self.rules) {
            self.close(Outcome::UpToDate { firewall_id: firewall.id })
        } else {
            let token = self.token();
            let rules = clone_rules(self.rules.as_slice());
            (
                Cycle { phase: Phase::SetRules { firewall_id: firewall.id }, ..self },
                Action::Call { token, call: ApiCall::SetRules { firewall_id: firewall.id, rules } },
            )
        }
    }

    fn no_address(event: Event) -> (error: IpDiscoveryError)
        ensures
            error@ == CycleView::no_address(event@),
    {
        match event {
            Event::Failed(reason) => IpDiscoveryError::Request(reason),
            _ => IpDiscoveryError::Request("unexpected answer".to_string()),
        }
    }

    fn no_answer(event: Event) -> (outcome: Outcome)
        ensures
            outcome@ == CycleView::no_answer(event@),
    {
        match event {
            Event::Failed(reason) => Outcome::TransportFailed(reason),
            _ => Outcome::TransportFailed("unexpected answer".to_string()),
        }
    }

    /// Starts a cycle: the first thing to do is to ask for the public IPv4
    /// address, or what follows where that is switched off.
    pub fn start(config: Config) -> (first: (Cycle, Action))
        ensures
            (first.0@, first.1@) == start(config@),
            first.0@.well_formed(),
    {
        proof {
            lemma_start_is_well_formed(config@);
        }
        let disable_ipv4 = config.disable_ipv4;
        let cycle = Cycle {
            config,
            phase: Phase::DiscoverV4,
            ips: Vec::new(),
            rules: Vec::new(),
            position: 0,
            outcomes: Vec::new(),
            failure: None,
        };
        assert(cycle.ips.deep_view() =~= Seq::empty());
        assert(cycle.rules.deep_view() =~= Seq::empty());
        assert(cycle.outcomes.deep_view() =~= Seq::empty());
        if disable_ipv4 {
            cycle.discovered_v4(None)
        } else {
            (cycle, Action::DiscoverIp { family: Family::V4 })
        }
    }

    /// Takes what came of the last action and names the next one.
    ///
    /// While an address is waited for, anything but an address of the right
    /// family ends the cycle with an error, and no project is touched. While
    /// an answer of the API is waited for, anything but that answer ends the
    /// pass over the project at hand, and the cycle goes on with the rest
    /// and the next project. Whatever arrives during the rest ends it. Once
    /// the cycle is over it stays so.
    pub fn step(self, event: Event) -> (next: (Cycle, Action))
        ensures
            (next.0@, next.1@) == self@.step(event@),
            self@.well_formed(),
            next.0@.well_formed(),
    {
        proof {
            use_type_invariant(&self);
            lemma_step_keeps_well_formed(self@, event@);
        }
        match self.phase {
            Phase::DiscoverV4 => match event {
                Event::Address(PublicIp::V4(addr)) => self.discovered_v4(Some(PublicIp::V4(addr))),
                Event::Address(PublicIp::V6(_)) => self.give_up(IpDiscoveryError::WrongFamily),
                other => {
                    let error = Self::no_address(other);
                    self.give_up(error)
                },
            },
            Phase::DiscoverV6 { ip4 } => match event {
                Event::Address(PublicIp::V6(addr)) => self.discovered(ip4, Some(PublicIp::V6(addr))),
                Event::Address(PublicIp::V4(_)) => self.give_up(IpDiscoveryError::WrongFamily),
                other => {
                    let error = Self::no_address(other);
                    self.give_up(error)
                },
            },
            Phase::List => match event {
                Event::Firewalls(firewalls) => match get_or_create_firewall(firewalls, &self.config.firewall_name) {
                    FirewallLookup::Found(firewall) => self.compare(firewall),
                    FirewallLookup::Create { name } => {
                        let token = self.token();
                        (
                            Cycle { phase: Phase::Create, ..self },
                            Action::Call { token, call: ApiCall::CreateFirewall { name } },
                        )
                    },
                },
                other => {
                    let outcome = Self::no_answer(other);
                    self.close(outcome)
                },
            },
            Phase::Create => match event {
                Event::Created(firewall) => self.compare(firewall),
                other => {
                    let outcome = Self::no_answer(other);
                    self.close(outcome)
                },
            },
            Phase::SetRules { firewall_id } => match event {
                Event::RulesAnswer(response) => match update_hcloud_firewall(&response) {
                    Ok(_) => self.close(Outcome::Updated { firewall_id }),
                    Err(error) => self.close(Outcome::ApiFailed(error)),
                },
                other => {
                    let outcome = Self::no_answer(other);
                    self.close(outcome)
                },
            },
            Phase::Pause => {
                assert(self.position < self.config.hcloud_token.len()) by {
                    assert(self.config.hcloud_token.deep_view().len() == self.config.hcloud_token.len());
                }
                let next = self.position + 1;
                self.turn_to(next)
            },
            Phase::Done => self.finish(),
        }
    }
}

} // verus!
