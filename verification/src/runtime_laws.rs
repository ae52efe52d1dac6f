//! What holds of the volatile network state, and of the radios.

use vstd::prelude::*;

use crate::change::ObjectOwnership;
use crate::firewall_uci::UciSectionView;
use crate::json::JsonView;
use crate::net::IpNetwork;
use crate::network_model::{NetworkObjectView, NetworkPlannedChangeView, NetworkRouteView};
use crate::network_runtime::{
    id_in, interface_value, is_owned_route, is_reserved, json_array_value, links_read, name_at, native_rules,
    number_part, observed, policy_inventory, route_value, routes_read, rule_at, rule_value, runtime_inventory,
    RuleAnswerView, RuntimeNetworkInventoryError, MAX_OBJECTS,
};
use crate::network_runtime_stage::{
    address_line, address_lines, applied, maybe_lines, missing_lines, object_lines, replaced, route_line,
    rule_line, word_part,
};
use crate::text::{has_text, starts, text_at};
use crate::wireless_openwrt::{is_scalar_radio, radio_options, radio_value};

verus! {

/// Whether every object is the platform's own, and no two have the same identity.
pub open spec fn are_native(objects: Seq<NetworkObjectView>) -> bool {
    &&& forall|i: int|
        0 <= i < objects.len() ==> (#[trigger] objects[i]).ownership()
            == ObjectOwnership::PlatformNative
    &&& forall|i: int, j: int|
        0 <= i < j < objects.len() ==> (#[trigger] objects[i]).id() != (#[trigger] objects[j]).id()
}

proof fn lemma_native_push(objects: Seq<NetworkObjectView>, o: NetworkObjectView)
    requires
        are_native(objects),
        o.ownership() == ObjectOwnership::PlatformNative,
        !id_in(objects, o.id()),
    ensures
        are_native(objects.push(o)),
{
    let next = objects.push(o);
    assert forall|i: int, j: int| 0 <= i < j < next.len() implies (#[trigger] next[i]).id() != (
    #[trigger] next[j]).id() by {
        assert(next[i] == objects[i]);
        if j < objects.len() {
            assert(next[j] == objects[j]);
        }
    }
}

proof fn lemma_links(
    objects: Seq<NetworkObjectView>,
    links: Seq<JsonView>,
    records: Seq<JsonView>,
    i: int,
)
    requires
        are_native(objects),
        0 <= i <= links.len(),
        links_read(objects, links, records, i) is Ok,
    ensures
        are_native(links_read(objects, links, records, i)->Ok_0),
        links_read(objects, links, records, i)->Ok_0.len() == objects.len() + links.len() - i,
    decreases links.len() - i,
{
    if i < links.len() {
        let name = name_at(links[i], "ifname"@)->Some_0;
        let o = NetworkObjectView::Interface(
            interface_value(name, links[i], observed(records, name)),
        );
        lemma_native_push(objects, o);
        lemma_links(objects.push(o), links, records, i + 1);
    }
}

proof fn lemma_routes(objects: Seq<NetworkObjectView>, routes: Seq<JsonView>, i: int)
    requires
        are_native(objects),
        objects.len() <= MAX_OBJECTS,
        0 <= i,
        routes_read(objects, routes, i) is Ok,
    ensures
        are_native(routes_read(objects, routes, i)->Ok_0),
        routes_read(objects, routes, i)->Ok_0.len() <= MAX_OBJECTS,
    decreases routes.len() - i,
{
    if i < routes.len() {
        if is_owned_route(routes[i]) {
            lemma_routes(objects, routes, i + 1);
        } else {
            match route_value(routes[i]) {
                Ok(Some(route)) => {
                    lemma_native_push(objects, NetworkObjectView::Route(route));
                    lemma_routes(objects.push(NetworkObjectView::Route(route)), routes, i + 1);
                },
                Ok(None) => {
                    lemma_routes(objects, routes, i + 1);
                },
                Err(_) => {},
            }
        }
    }
}

/// Kernel state does not show who configured it: every object of a runtime inventory is the platform's
/// own. No two have the same identity, and there are not too many.
pub proof fn law_runtime_inventory_is_native(
    links: Seq<char>,
    addresses: Seq<char>,
    routes: Seq<char>,
    valid: Seq<bool>,
)
    requires
        runtime_inventory(links, addresses, routes, valid) is Ok,
    ensures
        are_native(runtime_inventory(links, addresses, routes, valid)->Ok_0.objects),
        runtime_inventory(links, addresses, routes, valid)->Ok_0.objects.len() <= MAX_OBJECTS,
{
    let l = json_array_value(links)->Ok_0;
    let a = json_array_value(addresses)->Ok_0;
    let r = json_array_value(routes)->Ok_0;
    lemma_links(Seq::empty(), l, a, 0);
    lemma_routes(links_read(Seq::empty(), l, a, 0)->Ok_0, r, 0);
}

/// A route of an ambiguous form, with several next hops or with one that is named elsewhere, is left
/// out.
pub proof fn law_ambiguous_routes_are_left_out(record: JsonView)
    requires
        record.field("multipath"@) is Some || record.field("nhid"@) is Some,
    ensures
        route_value(record) == Ok::<Option<NetworkRouteView>, RuntimeNetworkInventoryError>(None),
{
}

/// Whether every object is a rule outside the priorities that are reserved for the agent.
pub open spec fn are_foreign_rules(objects: Seq<NetworkObjectView>) -> bool {
    forall|i: int|
        0 <= i < objects.len() ==> (#[trigger] objects[i] matches NetworkObjectView::PolicyRule(r)
            && !is_reserved(r.priority))
}

proof fn lemma_rule_ownership(record: JsonView)
    ensures
        rule_value(record) matches Ok(Some(r)) ==> (is_reserved(r.priority) <==> r.ownership
            == ObjectOwnership::AgentOwned),
{
}

proof fn lemma_native_rules(
    objects: Seq<NetworkObjectView>,
    values: Seq<JsonView>,
    answers: Seq<RuleAnswerView>,
    i: int,
)
    requires
        are_native(objects),
        are_foreign_rules(objects),
        0 <= i,
        native_rules(objects, values, answers, i) is Ok,
    ensures
        are_native(native_rules(objects, values, answers, i)->Ok_0),
        are_foreign_rules(native_rules(objects, values, answers, i)->Ok_0),
    decreases values.len() - i,
{
    if i < values.len() {
        lemma_rule_ownership(values[i]);
        match rule_at(values, answers, i) {
            Ok(Some(rule)) => {
                if rule.ownership == ObjectOwnership::AgentOwned {
                    lemma_native_rules(objects, values, answers, i + 1);
                } else {
                    let o = NetworkObjectView::PolicyRule(rule);
                    assert(rule.ownership == ObjectOwnership::PlatformNative);
                    lemma_native_push(objects, o);
                    lemma_native_rules(objects.push(o), values, answers, i + 1);
                }
            },
            Ok(None) => {
                lemma_native_rules(objects, values, answers, i + 1);
            },
            Err(_) => {},
        }
    }
}

/// The inventory of policy rules holds rules of the platform only, none of them with a priority that is
/// reserved for the agent.
pub proof fn law_policy_inventory_is_native(text: Seq<char>, answers: Seq<RuleAnswerView>)
    requires
        policy_inventory(text, answers) is Ok,
    ensures
        are_native(policy_inventory(text, answers)->Ok_0.objects),
        are_foreign_rules(policy_inventory(text, answers)->Ok_0.objects),
{
    lemma_native_rules(Seq::empty(), json_array_value(text)->Ok_0, answers, 0);
}

/// Every command on a route carries the protocol that marks the route as the agent's own.
pub proof fn law_routes_carry_their_protocol(op: Seq<char>, r: NetworkRouteView)
    ensures
        has_text(route_line(op, r), " proto 186"@),
{
    let line = route_line(op, r);
    let tail = word_part(
        " metric "@,
        number_part(r.metric),
    ) + "\n"@;
    let at = line.len() - tail.len() - " proto 186"@.len();
    assert(line.subrange(at, at + " proto 186"@.len()) =~= " proto 186"@);
    assert(text_at(line, " proto 186"@, at));
}

proof fn lemma_starts_trans(s: Seq<char>, a: Seq<char>, b: Seq<char>)
    requires
        starts(s, a),
        starts(a, b),
    ensures
        starts(s, b),
{
    assert(s.take(b.len() as int) =~= a.take(b.len() as int));
}

proof fn lemma_starts_push(a: Seq<char>, b: Seq<char>)
    ensures
        starts(a + b, a),
{
    assert((a + b).take(a.len() as int) =~= a);
}

proof fn lemma_starts_same(a: Seq<char>)
    ensures
        starts(a, a),
{
    assert(a.take(a.len() as int) =~= a);
}

proof fn lemma_address_lines(
    batch: Seq<char>,
    op: Seq<char>,
    addresses: Seq<IpNetwork>,
    device: Seq<char>,
    i: int,
)
    ensures
        starts(address_lines(batch, op, addresses, device, i), batch),
    decreases addresses.len() - i,
{
    lemma_starts_same(batch);
    if 0 <= i < addresses.len() {
        let next = batch + address_line(op, addresses[i], device);
        lemma_starts_push(batch, address_line(op, addresses[i], device));
        lemma_address_lines(next, op, addresses, device, i + 1);
        lemma_starts_trans(address_lines(next, op, addresses, device, i + 1), next, batch);
    }
}

proof fn lemma_missing_lines(
    batch: Seq<char>,
    op: Seq<char>,
    addresses: Seq<IpNetwork>,
    other: Seq<IpNetwork>,
    device: Seq<char>,
    i: int,
)
    ensures
        starts(missing_lines(batch, op, addresses, other, device, i), batch),
    decreases addresses.len() - i,
{
    lemma_starts_same(batch);
    if 0 <= i < addresses.len() {
        let next = batch + address_line(op, addresses[i], device);
        lemma_starts_push(batch, address_line(op, addresses[i], device));
        lemma_missing_lines(batch, op, addresses, other, device, i + 1);
        lemma_missing_lines(next, op, addresses, other, device, i + 1);
        lemma_starts_trans(
            missing_lines(next, op, addresses, other, device, i + 1),
            next,
            batch,
        );
    }
}

proof fn lemma_object_lines(batch: Seq<char>, op: Seq<char>, o: NetworkObjectView)
    ensures
        starts(object_lines(batch, op, o), batch),
{
    lemma_starts_same(batch);
    match o {
        NetworkObjectView::Interface(x) => {
            lemma_address_lines(batch, op, x.addresses, x.device, 0);
        },
        NetworkObjectView::Route(x) => {
            lemma_starts_push(batch, route_line(op, x));
        },
        NetworkObjectView::PolicyRule(x) => {
            lemma_starts_push(batch, rule_line(op, x));
        },
        _ => {},
    }
}

proof fn lemma_maybe_lines(batch: Seq<char>, op: Seq<char>, o: Option<NetworkObjectView>)
    ensures
        starts(maybe_lines(batch, op, o), batch),
{
    lemma_starts_same(batch);
    if let Some(x) = o {
        lemma_object_lines(batch, op, x);
    }
}

proof fn lemma_replaced(batch: Seq<char>, c: NetworkPlannedChangeView)
    ensures
        replaced(batch, c.before, c.after, c.before_checks, c.after_checks) matches Ok(t) ==> starts(
            t,
            batch,
        ),
{
    match (c.before, c.after) {
        (Some(NetworkObjectView::Interface(b)), Some(NetworkObjectView::Interface(a))) => {
            lemma_missing_lines(batch, "del"@, b.addresses, a.addresses, b.device, 0);
            let mid = missing_lines(batch, "del"@, b.addresses, a.addresses, b.device, 0);
            lemma_missing_lines(mid, "add"@, a.addresses, b.addresses, a.device, 0);
            lemma_starts_trans(
                missing_lines(mid, "add"@, a.addresses, b.addresses, a.device, 0),
                mid,
                batch,
            );
        },
        _ => {
            lemma_maybe_lines(batch, "del"@, c.before);
            let mid = maybe_lines(batch, "del"@, c.before);
            lemma_maybe_lines(mid, "add"@, c.after);
            lemma_starts_trans(maybe_lines(mid, "add"@, c.after), mid, batch);
        },
    }
}

proof fn lemma_applied_grows(batch: Seq<char>, changes: Seq<NetworkPlannedChangeView>, i: int)
    requires
        0 <= i,
        applied(batch, changes, i) is Ok,
    ensures
        starts(applied(batch, changes, i)->Ok_0, batch),
    decreases changes.len() - i,
{
    lemma_starts_same(batch);
    if i < changes.len() {
        let c = changes[i];
        lemma_replaced(batch, c);
        let next = replaced(batch, c.before, c.after, c.before_checks, c.after_checks)->Ok_0;
        lemma_applied_grows(next, changes, i + 1);
        lemma_starts_trans(applied(next, changes, i + 1)->Ok_0, next, batch);
    }
}

proof fn lemma_ends_in(a: Seq<char>, line: Seq<char>, all: Seq<char>)
    requires
        starts(all, a + line),
    ensures
        has_text(all, line),
{
    let n = a.len() as int;
    assert(all.subrange(n, n + line.len()) =~= line) by {
        assert(all.take((a + line).len() as int) == a + line);
        assert forall|i: int| 0 <= i < line.len() implies all.subrange(n, n + line.len())[i]
            == line[i] by {
            assert(all[n + i] == (a + line)[n + i]);
        }
    }
    assert(text_at(all, line, n));
}

/// A batch that is applied holds the command that adds each route of the plan, with the protocol that
/// marks the route as the agent's own.
pub proof fn law_planned_routes_are_installed(
    batch: Seq<char>,
    changes: Seq<NetworkPlannedChangeView>,
    i: int,
    j: int,
)
    requires
        0 <= i <= j < changes.len(),
        applied(batch, changes, i) is Ok,
        changes[j].after matches Some(NetworkObjectView::Route(_)),
    ensures
        has_text(applied(batch, changes, i)->Ok_0, route_line("add"@, changes[j].after->Some_0->Route_0)),
        has_text(route_line("add"@, changes[j].after->Some_0->Route_0), " proto 186"@),
    decreases changes.len() - i,
{
    let c = changes[i];
    let next = replaced(batch, c.before, c.after, c.before_checks, c.after_checks)->Ok_0;
    law_routes_carry_their_protocol("add"@, changes[j].after->Some_0->Route_0);
    if i < j {
        law_planned_routes_are_installed(next, changes, i + 1, j);
    } else {
        let mid = maybe_lines(batch, "del"@, c.before);
        let line = route_line("add"@, c.after->Some_0->Route_0);
        assert(next == mid + line);
        lemma_applied_grows(next, changes, i + 1);
        lemma_ends_in(mid, line, applied(next, changes, i + 1)->Ok_0);
    }
}

/// A radio is read from its own options only: sections that agree on these give the same radio,
/// whatever else they hold.
pub proof fn law_radio_is_read_from_its_own_options(a: UciSectionView, b: UciSectionView)
    requires
        a.selector == b.selector,
        forall|i: int|
            0 <= i < radio_options().len() ==> a.get(#[trigger] radio_options()[i]) == b.get(
                radio_options()[i],
            ),
    ensures
        radio_value(a) == radio_value(b),
{
    let o = radio_options();
    assert(o[0] == "type"@ && o[1] == "disabled"@ && o[2] == "band"@ && o[3] == "hwmode"@ && o[4]
        == "channel"@ && o[5] == "htmode"@ && o[6] == "country"@ && o[7] == "txpower"@);
    assert(is_scalar_radio(a) == is_scalar_radio(b));
}

} // verus!
