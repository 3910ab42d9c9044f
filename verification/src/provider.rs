//! A provider that does as it is asked, and what a cycle does with it.
//!
//! The model is a project's list of firewalls. Listing hands it out as it
//! is; creating adds a firewall of the name asked for at its end; setting
//! rules gives them to every firewall of the id. It serves to say what a
//! second cycle does after a first one: it lists, and sends nothing.

use vstd::prelude::*;
use crate::config::ConfigView;
use crate::hcloud::ApiCallView;
use crate::hcloud::FirewallLookupView;
use crate::hcloud::FirewallView;
use crate::hcloud::first_named;
use crate::hcloud::first_named_from;
use crate::hcloud::lemma_first_named;
use crate::hcloud::lookup;
use crate::hcloud::RuleView;
use crate::ip::Family;
use crate::ip::PublicIp;
use crate::reconcile::ActionView;
use crate::reconcile::CycleView;
use crate::reconcile::EventView;
use crate::reconcile::lemma_projects_are_taken_in_turn;
use crate::reconcile::lemma_start_is_well_formed;
use crate::reconcile::lemma_step_keeps_well_formed;
use crate::reconcile::start;

verus! {

/// The firewalls of a project once every firewall of an id has been given a
/// rule list.
pub open spec fn with_rules(firewalls: Seq<FirewallView>, firewall_id: u32, rules: Seq<RuleView>) -> Seq<
    FirewallView,
> {
    Seq::new(
        firewalls.len(),
        |i: int|
            if firewalls[i].id == firewall_id {
                FirewallView { rules, ..firewalls[i] }
            } else {
                firewalls[i]
            },
    )
}

/// What the provider holds after a call, and what it answers. A new
/// firewall has the name asked for; its id and its first rules are the
/// provider's to choose.
pub open spec fn serve(firewalls: Seq<FirewallView>, call: ApiCallView, fresh: FirewallView) -> (
    Seq<FirewallView>,
    EventView,
) {
    match call {
        ApiCallView::ListFirewalls => (firewalls, EventView::Firewalls(firewalls)),
        ApiCallView::CreateFirewall { name } => (
            firewalls.push(FirewallView { name, ..fresh }),
            EventView::Created(FirewallView { name, ..fresh }),
        ),
        ApiCallView::SetRules { firewall_id, rules } => (
            with_rules(firewalls, firewall_id, rules),
            EventView::RulesAnswer(None),
        ),
    }
}

/// The pass over a project from a named action on, each call served by the
/// provider, for at most a number of calls: the cycle at the end, what the
/// provider holds then, and the calls that were made.
pub open spec fn pass(
    cycle: CycleView,
    action: ActionView,
    firewalls: Seq<FirewallView>,
    fresh: FirewallView,
    calls: nat,
) -> (CycleView, Seq<FirewallView>, Seq<ApiCallView>)
    decreases calls,
{
    if calls == 0 {
        (cycle, firewalls, Seq::empty())
    } else {
        match action {
            ActionView::Call { call, .. } => {
                let (kept, event) = serve(firewalls, call, fresh);
                let (next, then) = cycle.step(event);
                let (end, last, made) = pass(next, then, kept, fresh, (calls - 1) as nat);
                (end, last, seq![call] + made)
            },
            _ => (cycle, firewalls, Seq::empty()),
        }
    }
}

/// The pass over the project at hand, from its listing on. Three calls are
/// the most that a pass makes: list, create, set the rules.
pub open spec fn pass_over(cycle: CycleView, firewalls: Seq<FirewallView>, fresh: FirewallView) -> (
    CycleView,
    Seq<FirewallView>,
    Seq<ApiCallView>,
) {
    pass(
        cycle,
        ActionView::Call { token: cycle.token(), call: ApiCallView::ListFirewalls },
        firewalls,
        fresh,
        3,
    )
}

/// Whether the firewall that a cycle would pick from a listing has the rules.
pub open spec fn settled(firewalls: Seq<FirewallView>, name: Seq<char>, rules: Seq<RuleView>) -> bool {
    lookup(firewalls, name) matches FirewallLookupView::Found(firewall) && firewall.rules == rules
}

/// Giving rules to the firewalls of an id leaves every name where it was.
proof fn lemma_with_rules_keeps_first_named(
    firewalls: Seq<FirewallView>,
    firewall_id: u32,
    rules: Seq<RuleView>,
    name: Seq<char>,
    from: int,
)
    requires
        0 <= from,
    ensures
        first_named_from(with_rules(firewalls, firewall_id, rules), name, from) == first_named_from(
            firewalls,
            name,
            from,
        ),
    decreases firewalls.len() - from,
{
    if from < firewalls.len() {
        lemma_with_rules_keeps_first_named(firewalls, firewall_id, rules, name, from + 1);
    }
}

/// A firewall added at the end of a list without its name is the first of
/// its name.
proof fn lemma_pushed_is_first_named(firewalls: Seq<FirewallView>, made: FirewallView, from: int)
    requires
        0 <= from <= firewalls.len(),
        forall|k: int| from <= k < firewalls.len() ==> (#[trigger] firewalls[k]).name != made.name,
    ensures
        first_named_from(firewalls.push(made), made.name, from) == Some(firewalls.len() as int),
    decreases firewalls.len() - from,
{
    if from < firewalls.len() {
        assert(firewalls.push(made)[from] == firewalls[from]);
        lemma_pushed_is_first_named(firewalls, made, from + 1);
    }
}

/// A pass over a project ends in the rest, and leaves the provider with the
/// firewall of the name carrying the rules that the configuration asks for.
pub proof fn lemma_pass_settles(cycle: CycleView, firewalls: Seq<FirewallView>, fresh: FirewallView)
    requires
        cycle.well_formed(),
        cycle.phase is List,
    ensures
        ({
            let (end, kept, made) = pass_over(cycle, firewalls, fresh);
            &&& end.phase is Pause
            &&& end.well_formed()
            &&& end.config == cycle.config && end.ips == cycle.ips && end.position == cycle.position
            &&& settled(kept, cycle.config.firewall_name, cycle.config.rules_for(cycle.ips))
            &&& end.outcomes.last() is UpToDate || end.outcomes.last() is Updated
        }),
{
    reveal_with_fuel(pass, 4);
    let name = cycle.config.firewall_name;
    let rules = cycle.rules;
    lemma_first_named(firewalls, name);
    let (listed, second) = cycle.step(EventView::Firewalls(firewalls));
    match lookup(firewalls, name) {
        FirewallLookupView::Found(firewall) => {
            if firewall.rules != rules {
                let at = first_named(firewalls, name)->Some_0;
                let kept = with_rules(firewalls, firewall.id, rules);
                lemma_with_rules_keeps_first_named(firewalls, firewall.id, rules, name, 0);
                assert(kept[at].rules == rules);
            }
        },
        FirewallLookupView::Create { .. } => {
            let made = FirewallView { name, ..fresh };
            let grown = firewalls.push(made);
            lemma_pushed_is_first_named(firewalls, made, 0);
            assert(grown[firewalls.len() as int] == made);
            if made.rules != rules {
                let kept = with_rules(grown, made.id, rules);
                lemma_with_rules_keeps_first_named(grown, made.id, rules, name, 0);
                assert(kept[firewalls.len() as int].rules == rules);
            }
        },
    }
}

/// A pass over a project whose firewall carries the rules makes one call,
/// the listing, and changes nothing.
pub proof fn lemma_settled_pass_only_lists(cycle: CycleView, firewalls: Seq<FirewallView>, fresh: FirewallView)
    requires
        cycle.well_formed(),
        cycle.phase is List,
        settled(firewalls, cycle.config.firewall_name, cycle.config.rules_for(cycle.ips)),
    ensures
        ({
            let (end, kept, made) = pass_over(cycle, firewalls, fresh);
            &&& made == seq![ApiCallView::ListFirewalls]
            &&& kept == firewalls
            &&& end.phase is Pause
            &&& end.outcomes.last() is UpToDate
        }),
{
    reveal_with_fuel(pass, 3);
    let (end, kept, made) = pass_over(cycle, firewalls, fresh);
    assert(made =~= seq![ApiCallView::ListFirewalls]);
}

/// A second pass sends nothing. After a pass over a project, a pass of any
/// cycle under the same configuration and with the same address set makes
/// one call, the listing: it creates no firewall and sets no rules, and the
/// provider holds what it held.
pub proof fn lemma_second_pass_sends_nothing(
    first: CycleView,
    second: CycleView,
    firewalls: Seq<FirewallView>,
    fresh: FirewallView,
    fresher: FirewallView,
)
    requires
        first.well_formed(),
        first.phase is List,
        second.well_formed(),
        second.phase is List,
        second.config == first.config,
        second.ips == first.ips,
    ensures
        ({
            let (_, kept, _) = pass_over(first, firewalls, fresh);
            let (end, kept_again, made) = pass_over(second, kept, fresher);
            &&& made == seq![ApiCallView::ListFirewalls]
            &&& kept_again == kept
            &&& end.outcomes.last() is UpToDate
        }),
{
    lemma_pass_settles(first, firewalls, fresh);
    let (_, kept, _) = pass_over(first, firewalls, fresh);
    lemma_settled_pass_only_lists(second, kept, fresher);
}

/// The firewalls that the provider holds for a token; none for a token it
/// has not seen.
pub open spec fn held(world: Map<Seq<char>, Seq<FirewallView>>, token: Seq<char>) -> Seq<FirewallView> {
    if world.dom().contains(token) {
        world[token]
    } else {
        Seq::empty()
    }
}

/// The rest of a cycle from the listing of the project at hand on, with a
/// provider that holds a list of firewalls for each token: the cycle at the
/// end, what the provider holds then, and the calls that were made, each
/// with its token.
pub open spec fn sweep(
    cycle: CycleView,
    world: Map<Seq<char>, Seq<FirewallView>>,
    fresh: spec_fn(nat) -> FirewallView,
) -> (CycleView, Map<Seq<char>, Seq<FirewallView>>, Seq<(Seq<char>, ApiCallView)>)
    decreases cycle.config.hcloud_token.len() - cycle.position,
{
    let token = cycle.token();
    let (paused, kept, made) = pass_over(cycle, held(world, token), fresh(cycle.position));
    let after = world.insert(token, kept);
    let calls = Seq::new(made.len(), |i: int| (token, made[i]));
    let (next, _) = paused.step(EventView::Resumed);
    if next.phase is List && next.config == cycle.config && next.position == cycle.position + 1
        && cycle.position < cycle.config.hcloud_token.len() {
        let (end, last, more) = sweep(next, after, fresh);
        (end, last, calls + more)
    } else {
        (next, after, calls)
    }
}

/// Whether the provider holds, for every project from an index on, a
/// firewall of the name with the rules.
pub open spec fn settled_from(
    world: Map<Seq<char>, Seq<FirewallView>>,
    tokens: Seq<Seq<char>>,
    from: int,
    name: Seq<char>,
    rules: Seq<RuleView>,
) -> bool {
    forall|q: int| from <= q < tokens.len() ==> settled(held(world, #[trigger] tokens[q]), name, rules)
}

/// A sweep settles every project that it passes over, and unsettles none.
pub proof fn lemma_sweep_settles(
    cycle: CycleView,
    world: Map<Seq<char>, Seq<FirewallView>>,
    fresh: spec_fn(nat) -> FirewallView,
)
    requires
        cycle.well_formed(),
        cycle.phase is List,
    ensures
        ({
            let (end, kept, _) = sweep(cycle, world, fresh);
            let name = cycle.config.firewall_name;
            let rules = cycle.config.rules_for(cycle.ips);
            &&& end.phase is Done && end.failure is None
            &&& settled_from(kept, cycle.config.hcloud_token, cycle.position as int, name, rules)
            &&& forall|token: Seq<char>|
                settled(held(world, token), name, rules) ==> settled(held(kept, token), name, rules)
        }),
    decreases cycle.config.hcloud_token.len() - cycle.position,
{
    let token = cycle.token();
    let name = cycle.config.firewall_name;
    let rules = cycle.config.rules_for(cycle.ips);
    let tokens = cycle.config.hcloud_token;
    let (paused, held_after, made) = pass_over(cycle, held(world, token), fresh(cycle.position));
    lemma_pass_settles(cycle, held(world, token), fresh(cycle.position));
    let after = world.insert(token, held_after);
    lemma_projects_are_taken_in_turn(paused, EventView::Resumed);
    let (next, _) = paused.step(EventView::Resumed);
    assert forall|other: Seq<char>| settled(held(world, other), name, rules) implies settled(
        held(after, other),
        name,
        rules,
    ) by {
        if other != token {
            assert(held(after, other) == held(world, other));
        }
    }
    assert(settled(held(after, tokens[cycle.position as int]), name, rules));
    if next.phase is List {
        lemma_sweep_settles(next, after, fresh);
        let (end, kept, _) = sweep(next, after, fresh);
        assert forall|q: int| cycle.position <= q < tokens.len() implies settled(
            held(kept, #[trigger] tokens[q]),
            name,
            rules,
        ) by {
            if q == cycle.position {
                assert(settled(held(after, tokens[q]), name, rules));
            }
        }
    }
}

/// A sweep over projects that are all settled only lists them: it creates no
/// firewall and sets no rules, and the provider holds what it held.
pub proof fn lemma_settled_sweep_only_lists(
    cycle: CycleView,
    world: Map<Seq<char>, Seq<FirewallView>>,
    fresh: spec_fn(nat) -> FirewallView,
)
    requires
        cycle.well_formed(),
        cycle.phase is List,
        settled_from(
            world,
            cycle.config.hcloud_token,
            cycle.position as int,
            cycle.config.firewall_name,
            cycle.config.rules_for(cycle.ips),
        ),
    ensures
        ({
            let (end, kept, made) = sweep(cycle, world, fresh);
            &&& end.phase is Done && end.failure is None
            &&& kept == world
            &&& made.len() == cycle.config.hcloud_token.len() - cycle.position
            &&& forall|i: int|
                0 <= i < made.len() ==> (#[trigger] made[i]) == (
                    cycle.config.hcloud_token[cycle.position + i],
                    ApiCallView::ListFirewalls,
                )
            &&& forall|i: int|
                cycle.position <= i < end.outcomes.len() ==> (#[trigger] end.outcomes[i]) is UpToDate
        }),
    decreases cycle.config.hcloud_token.len() - cycle.position,
{
    let token = cycle.token();
    let tokens = cycle.config.hcloud_token;
    assert(settled(held(world, tokens[cycle.position as int]), cycle.config.firewall_name, cycle.config.rules_for(cycle.ips)));
    let (paused, held_after, made) = pass_over(cycle, held(world, token), fresh(cycle.position));
    lemma_pass_settles(cycle, held(world, token), fresh(cycle.position));
    lemma_settled_pass_only_lists(cycle, held(world, token), fresh(cycle.position));
    let after = world.insert(token, held_after);
    assert(after =~= world);
    lemma_projects_are_taken_in_turn(paused, EventView::Resumed);
    let (next, _) = paused.step(EventView::Resumed);
    let calls = Seq::new(made.len(), |i: int| (token, made[i]));
    if next.phase is List {
        lemma_settled_sweep_only_lists(next, after, fresh);
        let (end, kept, more) = sweep(next, after, fresh);
        assert forall|i: int| cycle.position <= i < end.outcomes.len() implies (
        #[trigger] end.outcomes[i]) is UpToDate by {
            if i == cycle.position {
                lemma_outcomes_stay(next, after, fresh);
                assert(end.outcomes[i] == paused.outcomes.last());
            }
        }
    }
}

/// A sweep keeps the outcomes that were noted before it.
proof fn lemma_outcomes_stay(
    cycle: CycleView,
    world: Map<Seq<char>, Seq<FirewallView>>,
    fresh: spec_fn(nat) -> FirewallView,
)
    requires
        cycle.well_formed(),
        cycle.phase is List,
    ensures
        ({
            let (end, _, _) = sweep(cycle, world, fresh);
            &&& end.outcomes.len() >= cycle.outcomes.len()
            &&& forall|i: int| 0 <= i < cycle.outcomes.len() ==> (#[trigger] end.outcomes[i]) == cycle.outcomes[i]
        }),
    decreases cycle.config.hcloud_token.len() - cycle.position,
{
    reveal_with_fuel(pass, 4);
    let token = cycle.token();
    let (paused, held_after, made) = pass_over(cycle, held(world, token), fresh(cycle.position));
    lemma_pass_settles(cycle, held(world, token), fresh(cycle.position));
    assert(paused.outcomes.len() == cycle.outcomes.len() + 1);
    assert(forall|i: int| 0 <= i < cycle.outcomes.len() ==> paused.outcomes[i] == cycle.outcomes[i]);
    lemma_projects_are_taken_in_turn(paused, EventView::Resumed);
    let (next, _) = paused.step(EventView::Resumed);
    if next.phase is List {
        lemma_outcomes_stay(next, world.insert(token, held_after), fresh);
    }
}

/// A second cycle sends nothing. After the sweep of a cycle over all its
/// projects, the sweep of a cycle under the same configuration and with the
/// same address set lists each project once, in the order of the tokens,
/// and makes no other call; each project is found up to date, and the
/// provider holds what it held.
pub proof fn lemma_second_cycle_sends_nothing(
    first: CycleView,
    second: CycleView,
    world: Map<Seq<char>, Seq<FirewallView>>,
    fresh: spec_fn(nat) -> FirewallView,
    fresher: spec_fn(nat) -> FirewallView,
)
    requires
        first.well_formed(),
        first.phase is List,
        first.position == 0,
        second.well_formed(),
        second.phase is List,
        second.position == 0,
        second.config == first.config,
        second.ips == first.ips,
    ensures
        ({
            let (_, kept, _) = sweep(first, world, fresh);
            let (end, kept_again, made) = sweep(second, kept, fresher);
            &&& kept_again == kept
            &&& end.phase is Done && end.failure is None
            &&& made.len() == first.config.hcloud_token.len()
            &&& forall|i: int|
                0 <= i < made.len() ==> (#[trigger] made[i]) == (
                    first.config.hcloud_token[i],
                    ApiCallView::ListFirewalls,
                )
            &&& forall|i: int| 0 <= i < end.outcomes.len() ==> (#[trigger] end.outcomes[i]) is UpToDate
        }),
{
    lemma_sweep_settles(first, world, fresh);
    let (_, kept, _) = sweep(first, world, fresh);
    lemma_settled_sweep_only_lists(second, kept, fresher);
}

/// The cycle once the endpoint has answered each question for an address
/// with the address of that family, and what it names then: the listing of
/// the first project, or its end.
pub open spec fn after_discovery(config: ConfigView, ip4: u32, ip6: u128) -> (CycleView, ActionView) {
    let (first, action) = start(config);
    match action {
        ActionView::DiscoverIp { family: Family::V4 } => {
            let (second, then) = first.step(EventView::Address(PublicIp::V4(ip4)));
            if then is DiscoverIp {
                second.step(EventView::Address(PublicIp::V6(ip6)))
            } else {
                (second, then)
            }
        },
        ActionView::DiscoverIp { family: Family::V6 } => first.step(EventView::Address(PublicIp::V6(ip6))),
        _ => (first, action),
    }
}

/// A cycle after a cycle sends nothing. Under one configuration and with the
/// same public addresses, the cycle that follows a cycle over a provider that
/// did as it was asked lists each project once, in the order of the tokens,
/// finds each up to date, and makes no other call.
pub proof fn lemma_cycle_after_cycle_sends_nothing(
    config: ConfigView,
    ip4: u32,
    ip6: u128,
    world: Map<Seq<char>, Seq<FirewallView>>,
    fresh: spec_fn(nat) -> FirewallView,
    fresher: spec_fn(nat) -> FirewallView,
)
    requires
        after_discovery(config, ip4, ip6).1 is Call,
    ensures
        ({
            let (cycle, _) = after_discovery(config, ip4, ip6);
            let (_, kept, _) = sweep(cycle, world, fresh);
            let (end, kept_again, made) = sweep(cycle, kept, fresher);
            &&& kept_again == kept
            &&& end.phase is Done && end.failure is None
            &&& made.len() == config.hcloud_token.len()
            &&& forall|i: int|
                0 <= i < made.len() ==> (#[trigger] made[i]) == (config.hcloud_token[i], ApiCallView::ListFirewalls)
            &&& forall|i: int| 0 <= i < end.outcomes.len() ==> (#[trigger] end.outcomes[i]) is UpToDate
        }),
{
    let (first, action) = start(config);
    lemma_start_is_well_formed(config);
    let cycle = after_discovery(config, ip4, ip6).0;
    assert(cycle.well_formed() && cycle.phase is List && cycle.position == 0 && cycle.config == config) by {
        match action {
            ActionView::DiscoverIp { family: Family::V4 } => {
                let event = EventView::Address(PublicIp::V4(ip4));
                lemma_step_keeps_well_formed(first, event);
                let (second, then) = first.step(event);
                if then is DiscoverIp {
                    lemma_step_keeps_well_formed(second, EventView::Address(PublicIp::V6(ip6)));
                }
            },
            ActionView::DiscoverIp { family: Family::V6 } => {
                lemma_step_keeps_well_formed(first, EventView::Address(PublicIp::V6(ip6)));
            },
            _ => {},
        }
    }
    lemma_second_cycle_sends_nothing(cycle, cycle, world, fresh, fresher);
}

} // verus!
