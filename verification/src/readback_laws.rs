//! What is written into a section is read back from it as the same object.

use vstd::prelude::*;

use crate::change::ObjectOwnership;
use crate::firewall_uci::{anonymous_index, option_from, UciOptionView, UciSectionView};
use crate::net::{address_format, network_format, network_value, IpAddr, IpNetwork};
use crate::net_laws::{lacks, law_address_round_trips, law_network_round_trips, lemma_find_at};
use crate::network_decode::{
    action_kind, address_modes, bridge_value, dhcp_mode_value, dhcp_option_value, dhcp_server_value, has_any,
    has_cardinality, interface_address, interface_addresses, interface_value, ipv6_address,
    is_dhcp_option_text, is_scalar_dhcp, list_options, mark_value, network_object_value, number_value,
    policy_rule_value, route_kind, route_target, route_value, table_value, truth, unsupported_options,
    vlan_value, DhcpOptions,
};
use crate::network_model::{
    NetworkAddressMode, NetworkBridgeView, NetworkDhcpMode, NetworkDhcpOptionView,
    NetworkDhcpServerConfigView, NetworkFamily, NetworkInterfaceConfigView, NetworkObjectView,
    NetworkPolicyAction, NetworkPolicyRuleView, NetworkRouteType, NetworkRouteView, NetworkVlanProtocol,
    NetworkVlanView,
};
use crate::network_stage::{
    action_name, address_of, decimal_of, dhcp_mode_name, dhcp_section_of, family_texts, interface_section,
    mark_text, network_of, object_section, owner_options, policy_rule_section, protocol_of, route_section,
    route_type_name, vlan_type_name,
};
use crate::number_laws::{law_hex_round_trips, law_sized_numbers_round_trip, lemma_decimal, lemma_hex};
use crate::parse::{map_all, Addresses, Halves, Reader};
use crate::text::{decimal, hex, is_digit, is_hex, split_once};
use crate::uci_render::{flag, put_some, ListsView, OptionsView, RenderedSectionView};

verus! {

/// What was found, or else a value where it is the one that is looked for.
pub open spec fn pick(
    found: Option<Seq<char>>,
    here: bool,
    value: Option<Seq<char>>,
) -> Option<Seq<char>> {
    if found is Some {
        found
    } else if here {
        value
    } else {
        None
    }
}

/// What tells the names of options apart: their length, and three of their characters.
pub open spec fn tag(s: Seq<char>) -> (nat, char, char, char) {
    (s.len(), s[0], s[1], s.last())
}

/// The value of the first option of a name from `i` on.
pub open spec fn lookup_from(options: OptionsView, name: Seq<char>, i: int) -> Option<Seq<char>>
    decreases options.len() - i,
{
    if i < 0 || i >= options.len() {
        None
    } else if options[i].0 == name {
        Some(options[i].1)
    } else {
        lookup_from(options, name, i + 1)
    }
}

/// The value that an option is set to.
pub open spec fn lookup(options: OptionsView, name: Seq<char>) -> Option<Seq<char>> {
    lookup_from(options, name, 0)
}

proof fn lemma_lookup_push_from(
    options: OptionsView,
    name: Seq<char>,
    key: Seq<char>,
    value: Seq<char>,
    i: int,
)
    requires
        0 <= i <= options.len(),
    ensures
        lookup_from(options.push((key, value)), name, i) == (match lookup_from(options, name, i) {
            Some(v) => Some(v),
            None => if key == name {
                Some(value)
            } else {
                None
            },
        }),
    decreases options.len() - i,
{
    let more = options.push((key, value));
    if i < options.len() {
        assert(more[i] == options[i]);
        lemma_lookup_push_from(options, name, key, value, i + 1);
    } else {
        assert(more[i] == (key, value));
        assert(lookup_from(more, name, i + 1) is None);
    }
}

pub proof fn lemma_lookup_push(
    options: OptionsView,
    name: Seq<char>,
    key: Seq<char>,
    value: Seq<char>,
)
    ensures
        lookup(options.push((key, value)), name) == (match lookup(options, name) {
            Some(v) => Some(v),
            None => if key == name {
                Some(value)
            } else {
                None
            },
        }),
{
    lemma_lookup_push_from(options, name, key, value, 0);
}

pub proof fn lemma_lookup_put(
    options: OptionsView,
    name: Seq<char>,
    key: Seq<char>,
    value: Option<Seq<char>>,
)
    ensures
        lookup(put_some(options, key, value), name) == (match lookup(options, name) {
            Some(v) => Some(v),
            None => if key == name {
                value
            } else {
                None
            },
        }),
{
    match value {
        Some(v) => {
            lemma_lookup_push(options, name, key, v);
        },
        None => {},
    }
}

/// The marker of who owns a section.
pub open spec fn owner_mark(ownership: ObjectOwnership) -> Option<Seq<char>> {
    if ownership == ObjectOwnership::AgentOwned {
        Some("1"@)
    } else {
        None
    }
}

/// The identity that a section of the agent carries.
pub open spec fn owner_id(ownership: ObjectOwnership, id: Seq<char>) -> Option<Seq<char>> {
    if ownership == ObjectOwnership::AgentOwned {
        Some(id)
    } else {
        None
    }
}

/// Whether an object without a name of its own is identified by the place of its section, unless the
/// section carries its identity.
pub open spec fn is_placed(
    selector: Seq<char>,
    section_type: Seq<char>,
    kind: Seq<char>,
    ownership: ObjectOwnership,
    id: Seq<char>,
) -> bool {
    ownership == ObjectOwnership::AgentOwned || (anonymous_index(selector, section_type) matches Some(
        index,
    ) && id == "platform-"@ + kind + "-"@ + index)
}

proof fn lemma_lookup_owner(ownership: ObjectOwnership, id: Seq<char>, name: Seq<char>)
    ensures
        lookup(owner_options(ownership, id), name) == (if ownership
            != ObjectOwnership::AgentOwned {
            None
        } else if name == "mbed_managed"@ {
            Some("1"@)
        } else if name == "mbed_id"@ {
            Some(id)
        } else {
            None
        }),
{
    reveal_strlit("mbed_managed");
    reveal_strlit("mbed_id");
    let e = Seq::<(Seq<char>, Seq<char>)>::empty();
    let one = e.push(("mbed_managed"@, "1"@));
    assert(lookup(e, name) is None);
    lemma_lookup_push(e, name, "mbed_managed"@, "1"@);
    lemma_lookup_push(one, name, "mbed_id"@, id);
    if ownership == ObjectOwnership::AgentOwned {
        assert(owner_options(ownership, id) =~= one.push(("mbed_id"@, id)));
    }
}

/// The options that are set to one value each.
pub open spec fn scalars(options: OptionsView) -> Seq<UciOptionView> {
    Seq::new(
        options.len(),
        |i: int| UciOptionView { name: options[i].0, values: seq![options[i].1] },
    )
}

/// The options with a list from `i` on behind them; an empty list is not there.
pub open spec fn with_lists(acc: Seq<UciOptionView>, lists: ListsView, i: int) -> Seq<UciOptionView>
    decreases lists.len() - i,
{
    if i < 0 || i >= lists.len() {
        acc
    } else if lists[i].1.len() > 0 {
        with_lists(acc.push(UciOptionView { name: lists[i].0, values: lists[i].1 }), lists, i + 1)
    } else {
        with_lists(acc, lists, i + 1)
    }
}

/// The section that a new section becomes once its options are set and its lists filled.
#[verifier::opaque]
pub open spec fn written(selector: Seq<char>, r: RenderedSectionView) -> UciSectionView {
    UciSectionView {
        selector,
        section_type: r.section_type,
        options: with_lists(scalars(r.options), r.lists, 0),
        order: 0,
    }
}

/// The values of the first list of a name from `i` on that holds anything.
pub open spec fn list_from(lists: ListsView, name: Seq<char>, i: int) -> Option<Seq<Seq<char>>>
    decreases lists.len() - i,
{
    if i < 0 || i >= lists.len() {
        None
    } else if lists[i].0 == name && lists[i].1.len() > 0 {
        Some(lists[i].1)
    } else {
        list_from(lists, name, i + 1)
    }
}

proof fn lemma_option_push(options: Seq<UciOptionView>, o: UciOptionView, name: Seq<char>, i: int)
    requires
        0 <= i <= options.len(),
    ensures
        option_from(options.push(o), name, i) == (match option_from(options, name, i) {
            Some(v) => Some(v),
            None => if o.name == name {
                Some(o.values)
            } else {
                None
            },
        }),
    decreases options.len() - i,
{
    let more = options.push(o);
    if i < options.len() {
        assert(more[i] == options[i]);
        lemma_option_push(options, o, name, i + 1);
    } else {
        assert(more[i] == o);
        assert(option_from(more, name, i + 1) is None);
    }
}

proof fn lemma_scalars(options: OptionsView, name: Seq<char>, i: int)
    requires
        0 <= i <= options.len(),
    ensures
        option_from(scalars(options), name, i) == (match lookup_from(options, name, i) {
            Some(v) => Some(seq![v]),
            None => None,
        }),
    decreases options.len() - i,
{
    if i < options.len() {
        lemma_scalars(options, name, i + 1);
    }
}

proof fn lemma_with_lists(acc: Seq<UciOptionView>, lists: ListsView, name: Seq<char>, i: int)
    requires
        0 <= i <= lists.len(),
    ensures
        option_from(with_lists(acc, lists, i), name, 0) == (match option_from(acc, name, 0) {
            Some(v) => Some(v),
            None => list_from(lists, name, i),
        }),
    decreases lists.len() - i,
{
    if i < lists.len() {
        if lists[i].1.len() > 0 {
            let o = UciOptionView { name: lists[i].0, values: lists[i].1 };
            lemma_option_push(acc, o, name, 0);
            lemma_with_lists(acc.push(o), lists, name, i + 1);
        } else {
            lemma_with_lists(acc, lists, name, i + 1);
        }
    }
}

/// What an option of a written section reads as.
pub proof fn lemma_written_get(selector: Seq<char>, r: RenderedSectionView, name: Seq<char>)
    ensures
        written(selector, r).get(name) == (match lookup(r.options, name) {
            Some(v) => Some(seq![v]),
            None => list_from(r.lists, name, 0),
        }),
{
    reveal(written);
    lemma_scalars(r.options, name, 0);
    lemma_with_lists(scalars(r.options), r.lists, name, 0);
}

proof fn lemma_written_type(selector: Seq<char>, r: RenderedSectionView)
    ensures
        written(selector, r).section_type == r.section_type,
        written(selector, r).selector == selector,
{
    reveal(written);
}

proof fn lemma_cardinality(acc: Seq<UciOptionView>, lists: ListsView, names: Seq<Seq<char>>, i: int)
    requires
        0 <= i <= lists.len(),
        has_cardinality(acc, names),
        forall|k: int| 0 <= k < lists.len() ==> names.contains(#[trigger] lists[k].0),
    ensures
        has_cardinality(with_lists(acc, lists, i), names),
    decreases lists.len() - i,
{
    if i < lists.len() {
        if lists[i].1.len() > 0 {
            let o = UciOptionView { name: lists[i].0, values: lists[i].1 };
            assert(has_cardinality(acc.push(o), names));
            lemma_cardinality(acc.push(o), lists, names, i + 1);
        } else {
            lemma_cardinality(acc, lists, names, i + 1);
        }
    }
}

proof fn lemma_written_cardinality(selector: Seq<char>, r: RenderedSectionView)
    requires
        forall|k: int|
            0 <= k < r.lists.len() ==> list_options(r.section_type).contains(#[trigger] r.lists[k].0),
    ensures
        has_cardinality(written(selector, r).options, list_options(r.section_type)),
{
    reveal(written);
    lemma_cardinality(scalars(r.options), r.lists, list_options(r.section_type), 0);
}

pub proof fn lemma_flag(b: bool)
    ensures
        truth(flag(b)) == Some(b),
{
    reveal_strlit("0");
    reveal_strlit("1");
    reveal_strlit("false");
    reveal_strlit("no");
    reveal_strlit("off");
    assert("0"@[0] == '0');
    assert("1"@[0] == '1');
}

/// The options of a bridge.
pub open spec fn bridge_options(v: NetworkBridgeView) -> OptionsView {
    object_section(NetworkObjectView::Bridge(v), true)->Ok_0.options
}

proof fn lemma_bridge_lookup(v: NetworkBridgeView, name: Seq<char>)
    ensures
        ({
            let p0 = None::<Seq<char>>;
            let p1 = pick(p0, name == "mbed_managed"@, owner_mark(v.ownership));
            let p2 = pick(p1, name == "mbed_id"@, owner_id(v.ownership, v.id));
            let p3 = pick(p2, name == "name"@, Some(v.id));
            let p4 = pick(p3, name == "type"@, Some("bridge"@));
            let p5 = pick(p4, name == "disabled"@, Some(flag(!v.enabled)));
            let p6 = pick(p5, name == "stp"@, Some(flag(v.stp)));
            let p7 = pick(p6, name == "vlan_filtering"@, Some(flag(v.vlan_filtering)));
            let p8 = pick(p7, name == "mtu"@, decimal_of(v.mtu));
            lookup(bridge_options(v), name) == p8
        }),
{
    let o0 = owner_options(v.ownership, v.id);
    lemma_lookup_owner(v.ownership, v.id, name);
    lemma_lookup_push(o0, name, "name"@, v.id);
    let o1 = o0.push(("name"@, v.id));
    lemma_lookup_push(o1, name, "type"@, "bridge"@);
    let o2 = o1.push(("type"@, "bridge"@));
    lemma_lookup_push(o2, name, "disabled"@, flag(!v.enabled));
    let o3 = o2.push(("disabled"@, flag(!v.enabled)));
    lemma_lookup_push(o3, name, "stp"@, flag(v.stp));
    let o4 = o3.push(("stp"@, flag(v.stp)));
    lemma_lookup_push(o4, name, "vlan_filtering"@, flag(v.vlan_filtering));
    let o5 = o4.push(("vlan_filtering"@, flag(v.vlan_filtering)));
    lemma_lookup_put(o5, name, "mtu"@, decimal_of(v.mtu));
    let o6 = put_some(o5, "mtu"@, decimal_of(v.mtu));
    assert(bridge_options(v) == o6);
}

proof fn lemma_bridge_set(v: NetworkBridgeView)
    ensures
        lookup(bridge_options(v), "name"@) == Some(v.id),
        lookup(bridge_options(v), "type"@) == Some("bridge"@),
        lookup(bridge_options(v), "disabled"@) == Some(flag(!v.enabled)),
        lookup(bridge_options(v), "stp"@) == Some(flag(v.stp)),
        lookup(bridge_options(v), "vlan_filtering"@) == Some(flag(v.vlan_filtering)),
        lookup(bridge_options(v), "mtu"@) == decimal_of(v.mtu),
{
    reveal_strlit("mbed_managed");
    assert(tag("mbed_managed"@) == (12nat, 'm', 'b', 'd'));
    reveal_strlit("mbed_id");
    assert(tag("mbed_id"@) == (7nat, 'm', 'b', 'd'));
    reveal_strlit("name");
    assert(tag("name"@) == (4nat, 'n', 'a', 'e'));
    reveal_strlit("type");
    assert(tag("type"@) == (4nat, 't', 'y', 'e'));
    reveal_strlit("disabled");
    assert(tag("disabled"@) == (8nat, 'd', 'i', 'd'));
    reveal_strlit("stp");
    assert(tag("stp"@) == (3nat, 's', 't', 'p'));
    reveal_strlit("vlan_filtering");
    assert(tag("vlan_filtering"@) == (14nat, 'v', 'l', 'g'));
    reveal_strlit("mtu");
    assert(tag("mtu"@) == (3nat, 'm', 't', 'u'));
    lemma_bridge_lookup(v, "name"@);
    lemma_bridge_lookup(v, "type"@);
    lemma_bridge_lookup(v, "disabled"@);
    lemma_bridge_lookup(v, "stp"@);
    lemma_bridge_lookup(v, "vlan_filtering"@);
    lemma_bridge_lookup(v, "mtu"@);
}

proof fn lemma_bridge_unset(v: NetworkBridgeView)
    ensures
        lookup(bridge_options(v), "bridge_empty"@) is None,
        lookup(bridge_options(v), "igmp_snooping"@) is None,
        lookup(bridge_options(v), "multicast_querier"@) is None,
        lookup(bridge_options(v), "macaddr"@) is None,
        lookup(bridge_options(v), "promisc"@) is None,
        lookup(bridge_options(v), "acceptlocal"@) is None,
        lookup(bridge_options(v), "auto"@) is None,
        lookup(bridge_options(v), "ports"@) is None,
{
    reveal_strlit("mbed_managed");
    assert(tag("mbed_managed"@) == (12nat, 'm', 'b', 'd'));
    reveal_strlit("mbed_id");
    assert(tag("mbed_id"@) == (7nat, 'm', 'b', 'd'));
    reveal_strlit("name");
    assert(tag("name"@) == (4nat, 'n', 'a', 'e'));
    reveal_strlit("type");
    assert(tag("type"@) == (4nat, 't', 'y', 'e'));
    reveal_strlit("disabled");
    assert(tag("disabled"@) == (8nat, 'd', 'i', 'd'));
    reveal_strlit("stp");
    assert(tag("stp"@) == (3nat, 's', 't', 'p'));
    reveal_strlit("vlan_filtering");
    assert(tag("vlan_filtering"@) == (14nat, 'v', 'l', 'g'));
    reveal_strlit("mtu");
    assert(tag("mtu"@) == (3nat, 'm', 't', 'u'));
    reveal_strlit("bridge_empty");
    assert(tag("bridge_empty"@) == (12nat, 'b', 'r', 'y'));
    reveal_strlit("igmp_snooping");
    assert(tag("igmp_snooping"@) == (13nat, 'i', 'g', 'g'));
    reveal_strlit("multicast_querier");
    assert(tag("multicast_querier"@) == (17nat, 'm', 'u', 'r'));
    reveal_strlit("macaddr");
    assert(tag("macaddr"@) == (7nat, 'm', 'a', 'r'));
    reveal_strlit("promisc");
    assert(tag("promisc"@) == (7nat, 'p', 'r', 'c'));
    reveal_strlit("acceptlocal");
    assert(tag("acceptlocal"@) == (11nat, 'a', 'c', 'l'));
    reveal_strlit("auto");
    assert(tag("auto"@) == (4nat, 'a', 'u', 'o'));
    reveal_strlit("ports");
    assert(tag("ports"@) == (5nat, 'p', 'o', 's'));
    lemma_bridge_lookup(v, "bridge_empty"@);
    lemma_bridge_lookup(v, "igmp_snooping"@);
    lemma_bridge_lookup(v, "multicast_querier"@);
    lemma_bridge_lookup(v, "macaddr"@);
    lemma_bridge_lookup(v, "promisc"@);
    lemma_bridge_lookup(v, "acceptlocal"@);
    lemma_bridge_lookup(v, "auto"@);
    lemma_bridge_lookup(v, "ports"@);
}

/// One value, where there is one.
pub open spec fn one(o: Option<Seq<char>>) -> Option<Seq<Seq<char>>> {
    match o {
        Some(v) => Some(seq![v]),
        None => None,
    }
}

proof fn lemma_other_list(lists: ListsView, name: Seq<char>)
    requires
        lists.len() == 1,
        lists[0].0 != name,
    ensures
        list_from(lists, name, 0) is None,
{
    assert(list_from(lists, name, 1) is None);
}

pub proof fn lemma_only_list(lists: ListsView)
    requires
        lists.len() == 1,
    ensures
        list_from(lists, lists[0].0, 0) == (if lists[0].1.len() > 0 {
            Some(lists[0].1)
        } else {
            None
        }),
{
    assert(list_from(lists, lists[0].0, 1) is None);
}

proof fn lemma_device_clean(s: UciSectionView)
    requires
        s.get("bridge_empty"@) is None,
        s.get("igmp_snooping"@) is None,
        s.get("multicast_querier"@) is None,
        s.get("macaddr"@) is None,
        s.get("promisc"@) is None,
        s.get("acceptlocal"@) is None,
    ensures
        !has_any(s, unsupported_options("device"@)),
        list_options("device"@) == seq!["ports"@],
{
    reveal_strlit("device");
    assert(tag("device"@) == (6nat, 'd', 'e', 'e'));
    reveal_strlit("interface");
    assert(tag("interface"@) == (9nat, 'i', 'n', 'e'));
    let names = unsupported_options("device"@);
    assert forall|i: int| 0 <= i < names.len() implies !s.has(#[trigger] names[i]) by {
        assert(i == 0 || i == 1 || i == 2 || i == 3 || i == 4 || i == 5);
    }
}

proof fn lemma_is_bridge(s: UciSectionView, ownership: ObjectOwnership)
    requires
        s.section_type == "device"@,
        has_cardinality(s.options, list_options("device"@)),
        !has_any(s, unsupported_options("device"@)),
        s.get("type"@) == Some(seq!["bridge"@]),
    ensures
        network_object_value(s, ownership) == (match bridge_value(s, ownership) {
            Some(v) => Some(NetworkObjectView::Bridge(v)),
            None => None,
        }),
{
    reveal_strlit("device");
    assert(tag("device"@) == (6nat, 'd', 'e', 'e'));
    reveal_strlit("interface");
    assert(tag("interface"@) == (9nat, 'i', 'n', 'e'));
    assert(seq!["bridge"@][0] == "bridge"@);
}

proof fn lemma_bridge_gets(selector: Seq<char>, v: NetworkBridgeView)
    ensures
        ({
            let s = written(selector, object_section(NetworkObjectView::Bridge(v), true)->Ok_0);
            &&& s.get("name"@) == Some(seq![v.id])
            &&& s.get("type"@) == Some(seq!["bridge"@])
            &&& s.get("disabled"@) == Some(seq![flag(!v.enabled)])
            &&& s.get("stp"@) == Some(seq![flag(v.stp)])
            &&& s.get("vlan_filtering"@) == Some(seq![flag(v.vlan_filtering)])
            &&& s.get("mtu"@) == one(decimal_of(v.mtu))
            &&& s.get("bridge_empty"@) is None
            &&& s.get("igmp_snooping"@) is None
            &&& s.get("multicast_querier"@) is None
            &&& s.get("macaddr"@) is None
            &&& s.get("promisc"@) is None
            &&& s.get("acceptlocal"@) is None
            &&& s.get("auto"@) is None
            &&& s.values("ports"@) == v.ports
        }),
{
    let r = object_section(NetworkObjectView::Bridge(v), true)->Ok_0;
    lemma_bridge_set(v);
    lemma_bridge_unset(v);
    lemma_written_get(selector, r, "name"@);
    lemma_written_get(selector, r, "type"@);
    lemma_written_get(selector, r, "disabled"@);
    lemma_written_get(selector, r, "stp"@);
    lemma_written_get(selector, r, "vlan_filtering"@);
    lemma_written_get(selector, r, "mtu"@);
    lemma_written_get(selector, r, "bridge_empty"@);
    lemma_written_get(selector, r, "igmp_snooping"@);
    lemma_written_get(selector, r, "multicast_querier"@);
    lemma_written_get(selector, r, "macaddr"@);
    lemma_written_get(selector, r, "promisc"@);
    lemma_written_get(selector, r, "acceptlocal"@);
    lemma_written_get(selector, r, "auto"@);
    lemma_written_get(selector, r, "ports"@);
    reveal_strlit("ports");
    assert(tag("ports"@) == (5nat, 'p', 'o', 's'));
    reveal_strlit("mtu");
    assert(tag("mtu"@) == (3nat, 'm', 't', 'u'));
    reveal_strlit("bridge_empty");
    assert(tag("bridge_empty"@) == (12nat, 'b', 'r', 'y'));
    reveal_strlit("igmp_snooping");
    assert(tag("igmp_snooping"@) == (13nat, 'i', 'g', 'g'));
    reveal_strlit("multicast_querier");
    assert(tag("multicast_querier"@) == (17nat, 'm', 'u', 'r'));
    reveal_strlit("macaddr");
    assert(tag("macaddr"@) == (7nat, 'm', 'a', 'r'));
    reveal_strlit("promisc");
    assert(tag("promisc"@) == (7nat, 'p', 'r', 'c'));
    reveal_strlit("acceptlocal");
    assert(tag("acceptlocal"@) == (11nat, 'a', 'c', 'l'));
    reveal_strlit("auto");
    assert(tag("auto"@) == (4nat, 'a', 'u', 'o'));
    assert(r.lists[0].0 == "ports"@);
    lemma_other_list(r.lists, "mtu"@);
    lemma_other_list(r.lists, "bridge_empty"@);
    lemma_other_list(r.lists, "igmp_snooping"@);
    lemma_other_list(r.lists, "multicast_querier"@);
    lemma_other_list(r.lists, "macaddr"@);
    lemma_other_list(r.lists, "promisc"@);
    lemma_other_list(r.lists, "acceptlocal"@);
    lemma_other_list(r.lists, "auto"@);
    lemma_only_list(r.lists);
    assert(written(selector, r).values("ports"@) =~= v.ports);
}

/// A bridge that is written is read back as itself, whoever owns it.
pub proof fn law_written_bridge_is_read_back(selector: Seq<char>, v: NetworkBridgeView)
    ensures
        object_section(NetworkObjectView::Bridge(v), true) is Ok,
        network_object_value(
            written(selector, object_section(NetworkObjectView::Bridge(v), true)->Ok_0),
            v.ownership,
        ) == Some(NetworkObjectView::Bridge(v)),
{
    let r = object_section(NetworkObjectView::Bridge(v), true)->Ok_0;
    let s = written(selector, r);
    lemma_written_type(selector, r);
    lemma_bridge_gets(selector, v);
    lemma_device_clean(s);
    assert(list_options("device"@)[0] == "ports"@);
    lemma_written_cardinality(selector, r);
    lemma_is_bridge(s, v.ownership);
    lemma_flag(!v.enabled);
    lemma_flag(v.stp);
    lemma_flag(v.vlan_filtering);
    if let Some(m) = v.mtu {
        law_sized_numbers_round_trip(0, 0, m);
    }
}

/// The options of a VLAN.
pub open spec fn vlan_options(v: NetworkVlanView) -> OptionsView {
    object_section(NetworkObjectView::Vlan(v), true)->Ok_0.options
}

proof fn lemma_vlan_lookup(v: NetworkVlanView, name: Seq<char>)
    ensures
        ({
            let p0 = None::<Seq<char>>;
            let p1 = pick(p0, name == "mbed_managed"@, owner_mark(v.ownership));
            let p2 = pick(p1, name == "mbed_id"@, owner_id(v.ownership, v.id));
            let p3 = pick(p2, name == "name"@, Some(v.id));
            let p4 = pick(p3, name == "type"@, Some(vlan_type_name(v.protocol)));
            let p5 = pick(p4, name == "ifname"@, Some(v.parent));
            let p6 = pick(p5, name == "vid"@, Some(decimal(v.vlan_id as nat)));
            let p7 = pick(p6, name == "disabled"@, Some(flag(!v.enabled)));
            let p8 = pick(p7, name == "mtu"@, decimal_of(v.mtu));
            lookup(vlan_options(v), name) == p8
        }),
{
    let o0 = owner_options(v.ownership, v.id);
    lemma_lookup_owner(v.ownership, v.id, name);
    lemma_lookup_push(o0, name, "name"@, v.id);
    let o1 = o0.push(("name"@, v.id));
    lemma_lookup_push(o1, name, "type"@, vlan_type_name(v.protocol));
    let o2 = o1.push(("type"@, vlan_type_name(v.protocol)));
    lemma_lookup_push(o2, name, "ifname"@, v.parent);
    let o3 = o2.push(("ifname"@, v.parent));
    lemma_lookup_push(o3, name, "vid"@, decimal(v.vlan_id as nat));
    let o4 = o3.push(("vid"@, decimal(v.vlan_id as nat)));
    lemma_lookup_push(o4, name, "disabled"@, flag(!v.enabled));
    let o5 = o4.push(("disabled"@, flag(!v.enabled)));
    lemma_lookup_put(o5, name, "mtu"@, decimal_of(v.mtu));
    let o6 = put_some(o5, "mtu"@, decimal_of(v.mtu));
    assert(vlan_options(v) == o6);
}

proof fn lemma_vlan_set(v: NetworkVlanView)
    ensures
        lookup(vlan_options(v), "name"@) == Some(v.id),
        lookup(vlan_options(v), "type"@) == Some(vlan_type_name(v.protocol)),
        lookup(vlan_options(v), "ifname"@) == Some(v.parent),
        lookup(vlan_options(v), "vid"@) == Some(decimal(v.vlan_id as nat)),
        lookup(vlan_options(v), "disabled"@) == Some(flag(!v.enabled)),
        lookup(vlan_options(v), "mtu"@) == decimal_of(v.mtu),
{
    reveal_strlit("mbed_managed");
    assert(tag("mbed_managed"@) == (12nat, 'm', 'b', 'd'));
    reveal_strlit("mbed_id");
    assert(tag("mbed_id"@) == (7nat, 'm', 'b', 'd'));
    reveal_strlit("name");
    assert(tag("name"@) == (4nat, 'n', 'a', 'e'));
    reveal_strlit("type");
    assert(tag("type"@) == (4nat, 't', 'y', 'e'));
    reveal_strlit("ifname");
    assert(tag("ifname"@) == (6nat, 'i', 'f', 'e'));
    reveal_strlit("vid");
    assert(tag("vid"@) == (3nat, 'v', 'i', 'd'));
    reveal_strlit("disabled");
    assert(tag("disabled"@) == (8nat, 'd', 'i', 'd'));
    reveal_strlit("mtu");
    assert(tag("mtu"@) == (3nat, 'm', 't', 'u'));
    lemma_vlan_lookup(v, "name"@);
    lemma_vlan_lookup(v, "type"@);
    lemma_vlan_lookup(v, "ifname"@);
    lemma_vlan_lookup(v, "vid"@);
    lemma_vlan_lookup(v, "disabled"@);
    lemma_vlan_lookup(v, "mtu"@);
}

proof fn lemma_vlan_unset(v: NetworkVlanView)
    ensures
        lookup(vlan_options(v), "bridge_empty"@) is None,
        lookup(vlan_options(v), "igmp_snooping"@) is None,
        lookup(vlan_options(v), "multicast_querier"@) is None,
        lookup(vlan_options(v), "macaddr"@) is None,
        lookup(vlan_options(v), "promisc"@) is None,
        lookup(vlan_options(v), "acceptlocal"@) is None,
        lookup(vlan_options(v), "auto"@) is None,
{
    reveal_strlit("mbed_managed");
    assert(tag("mbed_managed"@) == (12nat, 'm', 'b', 'd'));
    reveal_strlit("mbed_id");
    assert(tag("mbed_id"@) == (7nat, 'm', 'b', 'd'));
    reveal_strlit("name");
    assert(tag("name"@) == (4nat, 'n', 'a', 'e'));
    reveal_strlit("type");
    assert(tag("type"@) == (4nat, 't', 'y', 'e'));
    reveal_strlit("ifname");
    assert(tag("ifname"@) == (6nat, 'i', 'f', 'e'));
    reveal_strlit("vid");
    assert(tag("vid"@) == (3nat, 'v', 'i', 'd'));
    reveal_strlit("disabled");
    assert(tag("disabled"@) == (8nat, 'd', 'i', 'd'));
    reveal_strlit("mtu");
    assert(tag("mtu"@) == (3nat, 'm', 't', 'u'));
    reveal_strlit("bridge_empty");
    assert(tag("bridge_empty"@) == (12nat, 'b', 'r', 'y'));
    reveal_strlit("igmp_snooping");
    assert(tag("igmp_snooping"@) == (13nat, 'i', 'g', 'g'));
    reveal_strlit("multicast_querier");
    assert(tag("multicast_querier"@) == (17nat, 'm', 'u', 'r'));
    reveal_strlit("macaddr");
    assert(tag("macaddr"@) == (7nat, 'm', 'a', 'r'));
    reveal_strlit("promisc");
    assert(tag("promisc"@) == (7nat, 'p', 'r', 'c'));
    reveal_strlit("acceptlocal");
    assert(tag("acceptlocal"@) == (11nat, 'a', 'c', 'l'));
    reveal_strlit("auto");
    assert(tag("auto"@) == (4nat, 'a', 'u', 'o'));
    lemma_vlan_lookup(v, "bridge_empty"@);
    lemma_vlan_lookup(v, "igmp_snooping"@);
    lemma_vlan_lookup(v, "multicast_querier"@);
    lemma_vlan_lookup(v, "macaddr"@);
    lemma_vlan_lookup(v, "promisc"@);
    lemma_vlan_lookup(v, "acceptlocal"@);
    lemma_vlan_lookup(v, "auto"@);
}

proof fn lemma_vlan_gets(selector: Seq<char>, v: NetworkVlanView)
    ensures
        ({
            let s = written(selector, object_section(NetworkObjectView::Vlan(v), true)->Ok_0);
            &&& s.get("name"@) == Some(seq![v.id])
            &&& s.get("type"@) == Some(seq![vlan_type_name(v.protocol)])
            &&& s.get("ifname"@) == Some(seq![v.parent])
            &&& s.get("vid"@) == Some(seq![decimal(v.vlan_id as nat)])
            &&& s.get("disabled"@) == Some(seq![flag(!v.enabled)])
            &&& s.get("mtu"@) == one(decimal_of(v.mtu))
            &&& s.get("bridge_empty"@) is None
            &&& s.get("igmp_snooping"@) is None
            &&& s.get("multicast_querier"@) is None
            &&& s.get("macaddr"@) is None
            &&& s.get("promisc"@) is None
            &&& s.get("acceptlocal"@) is None
            &&& s.get("auto"@) is None
        }),
{
    let r = object_section(NetworkObjectView::Vlan(v), true)->Ok_0;
    lemma_vlan_set(v);
    lemma_vlan_unset(v);
    lemma_written_get(selector, r, "name"@);
    lemma_written_get(selector, r, "type"@);
    lemma_written_get(selector, r, "ifname"@);
    lemma_written_get(selector, r, "vid"@);
    lemma_written_get(selector, r, "disabled"@);
    lemma_written_get(selector, r, "mtu"@);
    lemma_written_get(selector, r, "bridge_empty"@);
    lemma_written_get(selector, r, "igmp_snooping"@);
    lemma_written_get(selector, r, "multicast_querier"@);
    lemma_written_get(selector, r, "macaddr"@);
    lemma_written_get(selector, r, "promisc"@);
    lemma_written_get(selector, r, "acceptlocal"@);
    lemma_written_get(selector, r, "auto"@);
}

proof fn lemma_is_vlan(s: UciSectionView, ownership: ObjectOwnership, protocol: NetworkVlanProtocol)
    requires
        s.section_type == "device"@,
        has_cardinality(s.options, list_options("device"@)),
        !has_any(s, unsupported_options("device"@)),
        s.get("type"@) == Some(seq![vlan_type_name(protocol)]),
    ensures
        network_object_value(s, ownership) == (match vlan_value(s, ownership) {
            Some(v) => Some(NetworkObjectView::Vlan(v)),
            None => None,
        }),
        "8021q"@ != "8021ad"@,
{
    reveal_strlit("device");
    assert(tag("device"@) == (6nat, 'd', 'e', 'e'));
    reveal_strlit("interface");
    assert(tag("interface"@) == (9nat, 'i', 'n', 'e'));
    reveal_strlit("bridge");
    assert(tag("bridge"@) == (6nat, 'b', 'r', 'e'));
    reveal_strlit("8021q");
    assert(tag("8021q"@) == (5nat, '8', '0', 'q'));
    reveal_strlit("8021ad");
    assert(tag("8021ad"@) == (6nat, '8', '0', 'd'));
    assert(seq![vlan_type_name(protocol)][0] == vlan_type_name(protocol));
}

/// A VLAN that is written is read back as itself, whoever owns it.
pub proof fn law_written_vlan_is_read_back(selector: Seq<char>, v: NetworkVlanView)
    ensures
        object_section(NetworkObjectView::Vlan(v), true) is Ok,
        network_object_value(
            written(selector, object_section(NetworkObjectView::Vlan(v), true)->Ok_0),
            v.ownership,
        ) == Some(NetworkObjectView::Vlan(v)),
{
    let r = object_section(NetworkObjectView::Vlan(v), true)->Ok_0;
    let s = written(selector, r);
    lemma_written_type(selector, r);
    lemma_vlan_gets(selector, v);
    lemma_device_clean(s);
    lemma_written_cardinality(selector, r);
    lemma_is_vlan(s, v.ownership, v.protocol);
    lemma_flag(!v.enabled);
    law_sized_numbers_round_trip(0, v.vlan_id, 0);
    if let Some(m) = v.mtu {
        law_sized_numbers_round_trip(0, 0, m);
    }
}

/// The options of a route.
pub open spec fn route_options(v: NetworkRouteView) -> OptionsView {
    route_section(v).options
}

proof fn lemma_route_lookup(v: NetworkRouteView, name: Seq<char>)
    ensures
        ({
            let p0 = None::<Seq<char>>;
            let p1 = pick(p0, name == "mbed_managed"@, owner_mark(v.ownership));
            let p2 = pick(p1, name == "mbed_id"@, owner_id(v.ownership, v.id));
            let p3 = pick(p2, name == "target"@, Some(network_format(v.destination)));
            let p4 = pick(p3, name == "table"@, Some(decimal(v.table as nat)));
            let p5 = pick(p4, name == "disabled"@, Some(flag(!v.enabled)));
            let p6 = pick(p5, name == "type"@, Some(route_type_name(v.route_type)));
            let p7 = pick(p6, name == "gateway"@, address_of(v.gateway));
            let p8 = pick(p7, name == "interface"@, v.output_interface);
            let p9 = pick(p8, name == "source"@, address_of(v.preferred_source));
            let p10 = pick(p9, name == "metric"@, decimal_of(v.metric));
            lookup(route_options(v), name) == p10
        }),
{
    let o0 = owner_options(v.ownership, v.id);
    lemma_lookup_owner(v.ownership, v.id, name);
    lemma_lookup_push(o0, name, "target"@, network_format(v.destination));
    let o1 = o0.push(("target"@, network_format(v.destination)));
    lemma_lookup_push(o1, name, "table"@, decimal(v.table as nat));
    let o2 = o1.push(("table"@, decimal(v.table as nat)));
    lemma_lookup_push(o2, name, "disabled"@, flag(!v.enabled));
    let o3 = o2.push(("disabled"@, flag(!v.enabled)));
    lemma_lookup_push(o3, name, "type"@, route_type_name(v.route_type));
    let o4 = o3.push(("type"@, route_type_name(v.route_type)));
    lemma_lookup_put(o4, name, "gateway"@, address_of(v.gateway));
    let o5 = put_some(o4, "gateway"@, address_of(v.gateway));
    lemma_lookup_put(o5, name, "interface"@, v.output_interface);
    let o6 = put_some(o5, "interface"@, v.output_interface);
    lemma_lookup_put(o6, name, "source"@, address_of(v.preferred_source));
    let o7 = put_some(o6, "source"@, address_of(v.preferred_source));
    lemma_lookup_put(o7, name, "metric"@, decimal_of(v.metric));
    let o8 = put_some(o7, "metric"@, decimal_of(v.metric));
    assert(route_options(v) == o8);
}

proof fn lemma_route_set(v: NetworkRouteView)
    ensures
        lookup(route_options(v), "mbed_id"@) == owner_id(v.ownership, v.id),
        lookup(route_options(v), "target"@) == Some(network_format(v.destination)),
        lookup(route_options(v), "table"@) == Some(decimal(v.table as nat)),
        lookup(route_options(v), "disabled"@) == Some(flag(!v.enabled)),
        lookup(route_options(v), "type"@) == Some(route_type_name(v.route_type)),
        lookup(route_options(v), "gateway"@) == address_of(v.gateway),
        lookup(route_options(v), "interface"@) == v.output_interface,
        lookup(route_options(v), "source"@) == address_of(v.preferred_source),
        lookup(route_options(v), "metric"@) == decimal_of(v.metric),
{
    reveal_strlit("mbed_managed");
    assert(tag("mbed_managed"@) == (12nat, 'm', 'b', 'd'));
    reveal_strlit("mbed_id");
    assert(tag("mbed_id"@) == (7nat, 'm', 'b', 'd'));
    reveal_strlit("target");
    assert(tag("target"@) == (6nat, 't', 'a', 't'));
    reveal_strlit("table");
    assert(tag("table"@) == (5nat, 't', 'a', 'e'));
    reveal_strlit("disabled");
    assert(tag("disabled"@) == (8nat, 'd', 'i', 'd'));
    reveal_strlit("type");
    assert(tag("type"@) == (4nat, 't', 'y', 'e'));
    reveal_strlit("gateway");
    assert(tag("gateway"@) == (7nat, 'g', 'a', 'y'));
    reveal_strlit("interface");
    assert(tag("interface"@) == (9nat, 'i', 'n', 'e'));
    reveal_strlit("source");
    assert(tag("source"@) == (6nat, 's', 'o', 'e'));
    reveal_strlit("metric");
    assert(tag("metric"@) == (6nat, 'm', 'e', 'c'));
    lemma_route_lookup(v, "mbed_id"@);
    lemma_route_lookup(v, "target"@);
    lemma_route_lookup(v, "table"@);
    lemma_route_lookup(v, "disabled"@);
    lemma_route_lookup(v, "type"@);
    lemma_route_lookup(v, "gateway"@);
    lemma_route_lookup(v, "interface"@);
    lemma_route_lookup(v, "source"@);
    lemma_route_lookup(v, "metric"@);
}

proof fn lemma_route_unset(v: NetworkRouteView)
    ensures
        lookup(route_options(v), "onlink"@) is None,
        lookup(route_options(v), "mtu"@) is None,
        lookup(route_options(v), "netmask"@) is None,
        lookup(route_options(v), "auto"@) is None,
        lookup(route_options(v), "proto"@) is None,
        lookup(route_options(v), "name"@) is None,
{
    reveal_strlit("mbed_managed");
    assert(tag("mbed_managed"@) == (12nat, 'm', 'b', 'd'));
    reveal_strlit("mbed_id");
    assert(tag("mbed_id"@) == (7nat, 'm', 'b', 'd'));
    reveal_strlit("target");
    assert(tag("target"@) == (6nat, 't', 'a', 't'));
    reveal_strlit("table");
    assert(tag("table"@) == (5nat, 't', 'a', 'e'));
    reveal_strlit("disabled");
    assert(tag("disabled"@) == (8nat, 'd', 'i', 'd'));
    reveal_strlit("type");
    assert(tag("type"@) == (4nat, 't', 'y', 'e'));
    reveal_strlit("gateway");
    assert(tag("gateway"@) == (7nat, 'g', 'a', 'y'));
    reveal_strlit("interface");
    assert(tag("interface"@) == (9nat, 'i', 'n', 'e'));
    reveal_strlit("source");
    assert(tag("source"@) == (6nat, 's', 'o', 'e'));
    reveal_strlit("metric");
    assert(tag("metric"@) == (6nat, 'm', 'e', 'c'));
    reveal_strlit("onlink");
    assert(tag("onlink"@) == (6nat, 'o', 'n', 'k'));
    reveal_strlit("mtu");
    assert(tag("mtu"@) == (3nat, 'm', 't', 'u'));
    reveal_strlit("netmask");
    assert(tag("netmask"@) == (7nat, 'n', 'e', 'k'));
    reveal_strlit("auto");
    assert(tag("auto"@) == (4nat, 'a', 'u', 'o'));
    reveal_strlit("proto");
    assert(tag("proto"@) == (5nat, 'p', 'r', 'o'));
    reveal_strlit("name");
    assert(tag("name"@) == (4nat, 'n', 'a', 'e'));
    lemma_route_lookup(v, "onlink"@);
    lemma_route_lookup(v, "mtu"@);
    lemma_route_lookup(v, "netmask"@);
    lemma_route_lookup(v, "auto"@);
    lemma_route_lookup(v, "proto"@);
    lemma_route_lookup(v, "name"@);
}

proof fn lemma_route_gets(selector: Seq<char>, v: NetworkRouteView)
    requires
        v.output_interface is Some,
        v.table <= 65535,
    ensures
        ({
            let s = written(selector, object_section(NetworkObjectView::Route(v), true)->Ok_0);
            &&& s.get("mbed_id"@) == one(owner_id(v.ownership, v.id))
            &&& s.get("target"@) == Some(seq![network_format(v.destination)])
            &&& s.get("table"@) == Some(seq![decimal(v.table as nat)])
            &&& s.get("disabled"@) == Some(seq![flag(!v.enabled)])
            &&& s.get("type"@) == Some(seq![route_type_name(v.route_type)])
            &&& s.get("gateway"@) == one(address_of(v.gateway))
            &&& s.get("interface"@) == one(v.output_interface)
            &&& s.get("source"@) == one(address_of(v.preferred_source))
            &&& s.get("metric"@) == one(decimal_of(v.metric))
            &&& s.get("onlink"@) is None
            &&& s.get("mtu"@) is None
            &&& s.get("netmask"@) is None
            &&& s.get("auto"@) is None
            &&& s.get("proto"@) is None
            &&& s.get("name"@) is None
        }),
{
    let r = object_section(NetworkObjectView::Route(v), true)->Ok_0;
    lemma_route_set(v);
    lemma_route_unset(v);
    lemma_written_get(selector, r, "mbed_id"@);
    lemma_written_get(selector, r, "target"@);
    lemma_written_get(selector, r, "table"@);
    lemma_written_get(selector, r, "disabled"@);
    lemma_written_get(selector, r, "type"@);
    lemma_written_get(selector, r, "gateway"@);
    lemma_written_get(selector, r, "interface"@);
    lemma_written_get(selector, r, "source"@);
    lemma_written_get(selector, r, "metric"@);
    lemma_written_get(selector, r, "onlink"@);
    lemma_written_get(selector, r, "mtu"@);
    lemma_written_get(selector, r, "netmask"@);
    lemma_written_get(selector, r, "auto"@);
    lemma_written_get(selector, r, "proto"@);
    lemma_written_get(selector, r, "name"@);
}

proof fn lemma_route_clean(s: UciSectionView, ipv6: bool)
    requires
        s.section_type == (if ipv6 {
            "route6"@
        } else {
            "route"@
        }),
        s.get("onlink"@) is None,
        s.get("mtu"@) is None,
        has_cardinality(s.options, Seq::empty()),
    ensures
        forall|ownership: ObjectOwnership| #[trigger]
            network_object_value(s, ownership) == (match route_value(s, ownership) {
                Some(v) => Some(NetworkObjectView::Route(v)),
                None => None,
            }),
        list_options(s.section_type) == Seq::<Seq<char>>::empty(),
        (s.section_type == "route6"@) == ipv6,
{
    reveal_strlit("route");
    assert(tag("route"@) == (5nat, 'r', 'o', 'e'));
    reveal_strlit("route6");
    assert(tag("route6"@) == (6nat, 'r', 'o', '6'));
    reveal_strlit("device");
    assert(tag("device"@) == (6nat, 'd', 'e', 'e'));
    reveal_strlit("interface");
    assert(tag("interface"@) == (9nat, 'i', 'n', 'e'));
    let names = unsupported_options(s.section_type);
    assert(names == seq!["onlink"@, "mtu"@]);
    assert forall|i: int| 0 <= i < names.len() implies !s.has(#[trigger] names[i]) by {
        assert(i == 0 || i == 1);
    }
    assert(!has_any(s, names));
}

proof fn lemma_route_kind(t: NetworkRouteType)
    ensures
        route_kind(route_type_name(t)) == Some(t),
{
    reveal_strlit("unicast");
    assert(tag("unicast"@) == (7nat, 'u', 'n', 't'));
    reveal_strlit("blackhole");
    assert(tag("blackhole"@) == (9nat, 'b', 'l', 'e'));
    reveal_strlit("unreachable");
    assert(tag("unreachable"@) == (11nat, 'u', 'n', 'e'));
    reveal_strlit("prohibit");
    assert(tag("prohibit"@) == (8nat, 'p', 'r', 't'));
}

proof fn lemma_table(n: u32)
    ensures
        table_value(decimal(n as nat)) == Some(n),
{
    reveal_strlit("local");
    reveal_strlit("main");
    reveal_strlit("default");
    lemma_decimal(n as nat);
    law_sized_numbers_round_trip(0, 0, n);
    assert(is_digit(decimal(n as nat)[0]));
    assert("local"@[0] == 'l');
    assert("main"@[0] == 'm');
    assert("default"@[0] == 'd');
}

pub proof fn lemma_slash(n: IpNetwork)
    ensures
        network_format(n).contains('/'),
        network_value(network_format(n)) == Some(n),
{
    law_network_round_trips(n);
    reveal_strlit("/");
    let a = address_format(n.address);
    assert(network_format(n)[a.len() as int] == '/');
}

/// A route that is written is read back as itself. A route of the platform is identified by the place of
/// its section: a name that it has is not written.
pub proof fn law_written_route_is_read_back(selector: Seq<char>, v: NetworkRouteView)
    requires
        is_placed(
            selector,
            object_section(NetworkObjectView::Route(v), true)->Ok_0.section_type,
            "route"@,
            v.ownership,
            v.id,
        ),
        object_section(NetworkObjectView::Route(v), true) is Ok,
    ensures
        network_object_value(
            written(selector, object_section(NetworkObjectView::Route(v), true)->Ok_0),
            v.ownership,
        ) == Some(NetworkObjectView::Route(v)),
{
    let r = object_section(NetworkObjectView::Route(v), true)->Ok_0;
    let s = written(selector, r);
    let ipv6 = v.destination.address is V6;
    lemma_written_type(selector, r);
    lemma_route_gets(selector, v);
    reveal(written);
    assert(has_cardinality(s.options, Seq::empty()));
    lemma_route_clean(s, ipv6);
    lemma_slash(v.destination);
    lemma_route_kind(v.route_type);
    lemma_table(v.table);
    lemma_flag(!v.enabled);
    if let Some(a) = v.gateway {
        law_address_round_trips(a);
    }
    if let Some(a) = v.preferred_source {
        law_address_round_trips(a);
    }
    if let Some(m) = v.metric {
        law_sized_numbers_round_trip(0, 0, m);
    }
    assert(route_target(network_format(v.destination), None, ipv6) == Some(v.destination));
    assert(route_value(s, v.ownership) == Some(v));
}

/// The options of a policy rule.
pub open spec fn rule_options(v: NetworkPolicyRuleView) -> OptionsView {
    policy_rule_section(v).options
}

/// The table that a rule looks routes up in, where it does.
pub open spec fn lookup_table(v: NetworkPolicyRuleView) -> Option<Seq<char>> {
    if v.action == NetworkPolicyAction::Lookup {
        Some(decimal(v.table as nat))
    } else {
        None
    }
}

proof fn lemma_rule_lookup(v: NetworkPolicyRuleView, name: Seq<char>)
    ensures
        ({
            let p0 = None::<Seq<char>>;
            let p1 = pick(p0, name == "mbed_managed"@, owner_mark(v.ownership));
            let p2 = pick(p1, name == "mbed_id"@, owner_id(v.ownership, v.id));
            let p3 = pick(p2, name == "priority"@, Some(decimal(v.priority as nat)));
            let p4 = pick(p3, name == "disabled"@, Some(flag(!v.enabled)));
            let p5 = pick(p4, name == "action"@, Some(action_name(v.action)));
            let p6 = pick(p5, name == "lookup"@, lookup_table(v));
            let p7 = pick(p6, name == "src"@, network_of(v.source));
            let p8 = pick(p7, name == "dest"@, network_of(v.destination));
            let p9 = pick(p8, name == "in"@, v.input_interface);
            let p10 = pick(p9, name == "out"@, v.output_interface);
            let p11 = pick(p10, name == "mark"@, mark_text(v.fwmark, v.fwmark_mask));
            lookup(rule_options(v), name) == p11
        }),
{
    let o0 = owner_options(v.ownership, v.id);
    lemma_lookup_owner(v.ownership, v.id, name);
    lemma_lookup_push(o0, name, "priority"@, decimal(v.priority as nat));
    let o1 = o0.push(("priority"@, decimal(v.priority as nat)));
    lemma_lookup_push(o1, name, "disabled"@, flag(!v.enabled));
    let o2 = o1.push(("disabled"@, flag(!v.enabled)));
    lemma_lookup_push(o2, name, "action"@, action_name(v.action));
    let o3 = o2.push(("action"@, action_name(v.action)));
    lemma_lookup_put(o3, name, "lookup"@, lookup_table(v));
    let o4 = put_some(o3, "lookup"@, lookup_table(v));
    lemma_lookup_put(o4, name, "src"@, network_of(v.source));
    let o5 = put_some(o4, "src"@, network_of(v.source));
    lemma_lookup_put(o5, name, "dest"@, network_of(v.destination));
    let o6 = put_some(o5, "dest"@, network_of(v.destination));
    lemma_lookup_put(o6, name, "in"@, v.input_interface);
    let o7 = put_some(o6, "in"@, v.input_interface);
    lemma_lookup_put(o7, name, "out"@, v.output_interface);
    let o8 = put_some(o7, "out"@, v.output_interface);
    lemma_lookup_put(o8, name, "mark"@, mark_text(v.fwmark, v.fwmark_mask));
    let o9 = put_some(o8, "mark"@, mark_text(v.fwmark, v.fwmark_mask));
    assert(rule_options(v) == o9);
}

proof fn lemma_rule_set(v: NetworkPolicyRuleView)
    ensures
        lookup(rule_options(v), "mbed_id"@) == owner_id(v.ownership, v.id),
        lookup(rule_options(v), "priority"@) == Some(decimal(v.priority as nat)),
        lookup(rule_options(v), "disabled"@) == Some(flag(!v.enabled)),
        lookup(rule_options(v), "action"@) == Some(action_name(v.action)),
        lookup(rule_options(v), "lookup"@) == lookup_table(v),
        lookup(rule_options(v), "src"@) == network_of(v.source),
        lookup(rule_options(v), "dest"@) == network_of(v.destination),
        lookup(rule_options(v), "in"@) == v.input_interface,
        lookup(rule_options(v), "out"@) == v.output_interface,
        lookup(rule_options(v), "mark"@) == mark_text(v.fwmark, v.fwmark_mask),
{
    reveal_strlit("mbed_managed");
    assert(tag("mbed_managed"@) == (12nat, 'm', 'b', 'd'));
    reveal_strlit("mbed_id");
    assert(tag("mbed_id"@) == (7nat, 'm', 'b', 'd'));
    reveal_strlit("priority");
    assert(tag("priority"@) == (8nat, 'p', 'r', 'y'));
    reveal_strlit("disabled");
    assert(tag("disabled"@) == (8nat, 'd', 'i', 'd'));
    reveal_strlit("action");
    assert(tag("action"@) == (6nat, 'a', 'c', 'n'));
    reveal_strlit("lookup");
    assert(tag("lookup"@) == (6nat, 'l', 'o', 'p'));
    reveal_strlit("src");
    assert(tag("src"@) == (3nat, 's', 'r', 'c'));
    reveal_strlit("dest");
    assert(tag("dest"@) == (4nat, 'd', 'e', 't'));
    reveal_strlit("in");
    assert(tag("in"@) == (2nat, 'i', 'n', 'n'));
    reveal_strlit("out");
    assert(tag("out"@) == (3nat, 'o', 'u', 't'));
    reveal_strlit("mark");
    assert(tag("mark"@) == (4nat, 'm', 'a', 'k'));
    lemma_rule_lookup(v, "mbed_id"@);
    lemma_rule_lookup(v, "priority"@);
    lemma_rule_lookup(v, "disabled"@);
    lemma_rule_lookup(v, "action"@);
    lemma_rule_lookup(v, "lookup"@);
    lemma_rule_lookup(v, "src"@);
    lemma_rule_lookup(v, "dest"@);
    lemma_rule_lookup(v, "in"@);
    lemma_rule_lookup(v, "out"@);
    lemma_rule_lookup(v, "mark"@);
}

proof fn lemma_rule_unset(v: NetworkPolicyRuleView)
    ensures
        lookup(rule_options(v), "tos"@) is None,
        lookup(rule_options(v), "invert"@) is None,
        lookup(rule_options(v), "ipproto"@) is None,
        lookup(rule_options(v), "sport"@) is None,
        lookup(rule_options(v), "dport"@) is None,
        lookup(rule_options(v), "uidrange"@) is None,
        lookup(rule_options(v), "suppress_prefixlength"@) is None,
        lookup(rule_options(v), "auto"@) is None,
        lookup(rule_options(v), "name"@) is None,
{
    reveal_strlit("mbed_managed");
    assert(tag("mbed_managed"@) == (12nat, 'm', 'b', 'd'));
    reveal_strlit("mbed_id");
    assert(tag("mbed_id"@) == (7nat, 'm', 'b', 'd'));
    reveal_strlit("priority");
    assert(tag("priority"@) == (8nat, 'p', 'r', 'y'));
    reveal_strlit("disabled");
    assert(tag("disabled"@) == (8nat, 'd', 'i', 'd'));
    reveal_strlit("action");
    assert(tag("action"@) == (6nat, 'a', 'c', 'n'));
    reveal_strlit("lookup");
    assert(tag("lookup"@) == (6nat, 'l', 'o', 'p'));
    reveal_strlit("src");
    assert(tag("src"@) == (3nat, 's', 'r', 'c'));
    reveal_strlit("dest");
    assert(tag("dest"@) == (4nat, 'd', 'e', 't'));
    reveal_strlit("in");
    assert(tag("in"@) == (2nat, 'i', 'n', 'n'));
    reveal_strlit("out");
    assert(tag("out"@) == (3nat, 'o', 'u', 't'));
    reveal_strlit("mark");
    assert(tag("mark"@) == (4nat, 'm', 'a', 'k'));
    reveal_strlit("tos");
    assert(tag("tos"@) == (3nat, 't', 'o', 's'));
    reveal_strlit("invert");
    assert(tag("invert"@) == (6nat, 'i', 'n', 't'));
    reveal_strlit("ipproto");
    assert(tag("ipproto"@) == (7nat, 'i', 'p', 'o'));
    reveal_strlit("sport");
    assert(tag("sport"@) == (5nat, 's', 'p', 't'));
    reveal_strlit("dport");
    assert(tag("dport"@) == (5nat, 'd', 'p', 't'));
    reveal_strlit("uidrange");
    assert(tag("uidrange"@) == (8nat, 'u', 'i', 'e'));
    reveal_strlit("suppress_prefixlength");
    assert(tag("suppress_prefixlength"@) == (21nat, 's', 'u', 'h'));
    reveal_strlit("auto");
    assert(tag("auto"@) == (4nat, 'a', 'u', 'o'));
    reveal_strlit("name");
    assert(tag("name"@) == (4nat, 'n', 'a', 'e'));
    lemma_rule_lookup(v, "tos"@);
    lemma_rule_lookup(v, "invert"@);
    lemma_rule_lookup(v, "ipproto"@);
    lemma_rule_lookup(v, "sport"@);
    lemma_rule_lookup(v, "dport"@);
    lemma_rule_lookup(v, "uidrange"@);
    lemma_rule_lookup(v, "suppress_prefixlength"@);
    lemma_rule_lookup(v, "auto"@);
    lemma_rule_lookup(v, "name"@);
}

proof fn lemma_rule_gets(selector: Seq<char>, v: NetworkPolicyRuleView)
    requires
        v.table <= 65535,
    ensures
        ({
            let s = written(selector, object_section(NetworkObjectView::PolicyRule(v), true)->Ok_0);
            &&& s.get("mbed_id"@) == one(owner_id(v.ownership, v.id))
            &&& s.get("priority"@) == Some(seq![decimal(v.priority as nat)])
            &&& s.get("disabled"@) == Some(seq![flag(!v.enabled)])
            &&& s.get("action"@) == Some(seq![action_name(v.action)])
            &&& s.get("lookup"@) == one(lookup_table(v))
            &&& s.get("src"@) == one(network_of(v.source))
            &&& s.get("dest"@) == one(network_of(v.destination))
            &&& s.get("in"@) == one(v.input_interface)
            &&& s.get("out"@) == one(v.output_interface)
            &&& s.get("mark"@) == one(mark_text(v.fwmark, v.fwmark_mask))
            &&& s.get("tos"@) is None
            &&& s.get("invert"@) is None
            &&& s.get("ipproto"@) is None
            &&& s.get("sport"@) is None
            &&& s.get("dport"@) is None
            &&& s.get("uidrange"@) is None
            &&& s.get("suppress_prefixlength"@) is None
            &&& s.get("auto"@) is None
            &&& s.get("name"@) is None
        }),
{
    let r = object_section(NetworkObjectView::PolicyRule(v), true)->Ok_0;
    lemma_rule_set(v);
    lemma_rule_unset(v);
    lemma_written_get(selector, r, "mbed_id"@);
    lemma_written_get(selector, r, "priority"@);
    lemma_written_get(selector, r, "disabled"@);
    lemma_written_get(selector, r, "action"@);
    lemma_written_get(selector, r, "lookup"@);
    lemma_written_get(selector, r, "src"@);
    lemma_written_get(selector, r, "dest"@);
    lemma_written_get(selector, r, "in"@);
    lemma_written_get(selector, r, "out"@);
    lemma_written_get(selector, r, "mark"@);
    lemma_written_get(selector, r, "tos"@);
    lemma_written_get(selector, r, "invert"@);
    lemma_written_get(selector, r, "ipproto"@);
    lemma_written_get(selector, r, "sport"@);
    lemma_written_get(selector, r, "dport"@);
    lemma_written_get(selector, r, "uidrange"@);
    lemma_written_get(selector, r, "suppress_prefixlength"@);
    lemma_written_get(selector, r, "auto"@);
    lemma_written_get(selector, r, "name"@);
}

proof fn lemma_rule_clean(s: UciSectionView, ipv6: bool)
    requires
        s.section_type == (if ipv6 {
            "rule6"@
        } else {
            "rule"@
        }),
        s.get("tos"@) is None,
        s.get("invert"@) is None,
        s.get("ipproto"@) is None,
        s.get("sport"@) is None,
        s.get("dport"@) is None,
        s.get("uidrange"@) is None,
        s.get("suppress_prefixlength"@) is None,
        s.get("auto"@) is None,
        has_cardinality(s.options, Seq::empty()),
    ensures
        forall|ownership: ObjectOwnership| #[trigger]
            network_object_value(s, ownership) == (match policy_rule_value(s, ownership) {
                Some(v) => Some(NetworkObjectView::PolicyRule(v)),
                None => None,
            }),
        list_options(s.section_type) == Seq::<Seq<char>>::empty(),
        (s.section_type == "rule6"@) == ipv6,
{
    reveal_strlit("rule");
    assert(tag("rule"@) == (4nat, 'r', 'u', 'e'));
    reveal_strlit("rule6");
    assert(tag("rule6"@) == (5nat, 'r', 'u', '6'));
    reveal_strlit("route");
    assert(tag("route"@) == (5nat, 'r', 'o', 'e'));
    reveal_strlit("route6");
    assert(tag("route6"@) == (6nat, 'r', 'o', '6'));
    reveal_strlit("device");
    assert(tag("device"@) == (6nat, 'd', 'e', 'e'));
    reveal_strlit("interface");
    assert(tag("interface"@) == (9nat, 'i', 'n', 'e'));
    let names = unsupported_options(s.section_type);
    assert forall|i: int| 0 <= i < names.len() implies !s.has(#[trigger] names[i]) by {
        assert(i == 0 || i == 1 || i == 2 || i == 3 || i == 4 || i == 5 || i == 6);
    }
    assert(!has_any(s, names));
}

proof fn lemma_action_kind(t: NetworkPolicyAction)
    ensures
        action_kind(action_name(t)) == Some(t),
{
    reveal_strlit("lookup");
    assert(tag("lookup"@) == (6nat, 'l', 'o', 'p'));
    reveal_strlit("blackhole");
    assert(tag("blackhole"@) == (9nat, 'b', 'l', 'e'));
    reveal_strlit("unreachable");
    assert(tag("unreachable"@) == (11nat, 'u', 'n', 'e'));
    reveal_strlit("prohibit");
    assert(tag("prohibit"@) == (8nat, 'p', 'r', 't'));
}

proof fn lemma_hex_number(n: u32)
    ensures
        number_value("0x"@ + hex(n as nat)) == Some(n),
        lacks("0x"@ + hex(n as nat), '/'),
{
    reveal_strlit("0x");
    lemma_hex(n as nat);
    law_hex_round_trips(n as nat, u32::MAX as nat);
    let s = "0x"@ + hex(n as nat);
    assert(s.take(2) =~= "0x"@);
    assert(s.skip(2) =~= hex(n as nat));
    assert forall|i: int| 0 <= i < s.len() implies #[trigger] s[i] != '/' by {
        if i >= 2 {
            assert(s[i] == hex(n as nat)[i - 2]);
            assert(is_hex(s[i]));
        }
    }
}

proof fn lemma_mark(m: u32, k: u32)
    ensures
        mark_value("0x"@ + hex(m as nat) + "/0x"@ + hex(k as nat)) == Some((m, k)),
{
    reveal_strlit("0x");
    reveal_strlit("/0x");
    lemma_hex_number(m);
    lemma_hex_number(k);
    let a = "0x"@ + hex(m as nat);
    let b = "0x"@ + hex(k as nat);
    let s = "0x"@ + hex(m as nat) + "/0x"@ + hex(k as nat);
    assert(s[a.len() as int] == '/');
    assert forall|j: int| 0 <= j < a.len() implies s[j] != '/' by {
        assert(s[j] == a[j]);
    }
    lemma_find_at(s, '/', 0, a.len() as int);
    assert(s.take(a.len() as int) =~= a);
    assert(s.skip((a.len() + 1) as int) =~= b);
    assert(split_once(s, '/') == Some((a, b)));
}

/// A policy rule that is written is read back as itself. A mark is written with its mask or not at all,
/// and only a lookup has a table. A rule of the platform is identified by the place of its section: a
/// name that it has is not written.
pub proof fn law_written_rule_is_read_back(selector: Seq<char>, v: NetworkPolicyRuleView)
    requires
        is_placed(
            selector,
            object_section(NetworkObjectView::PolicyRule(v), true)->Ok_0.section_type,
            "rule"@,
            v.ownership,
            v.id,
        ),
        object_section(NetworkObjectView::PolicyRule(v), true) is Ok,
        v.fwmark is Some == v.fwmark_mask is Some,
        v.action != NetworkPolicyAction::Lookup ==> v.table == 0,
    ensures
        network_object_value(
            written(selector, object_section(NetworkObjectView::PolicyRule(v), true)->Ok_0),
            v.ownership,
        ) == Some(NetworkObjectView::PolicyRule(v)),
{
    let r = object_section(NetworkObjectView::PolicyRule(v), true)->Ok_0;
    let s = written(selector, r);
    let ipv6 = v.family == NetworkFamily::Ipv6;
    lemma_written_type(selector, r);
    lemma_rule_gets(selector, v);
    reveal(written);
    assert(has_cardinality(s.options, Seq::empty()));
    lemma_rule_clean(s, ipv6);
    lemma_action_kind(v.action);
    lemma_table(v.table);
    lemma_flag(!v.enabled);
    law_sized_numbers_round_trip(0, 0, v.priority);
    if let Some(n) = v.source {
        lemma_slash(n);
    }
    if let Some(n) = v.destination {
        lemma_slash(n);
    }
    if let (Some(m), Some(k)) = (v.fwmark, v.fwmark_mask) {
        lemma_mark(m, k);
    }
    assert(policy_rule_value(s, v.ownership) == Some(v));
}

/// The options of an interface.
pub open spec fn interface_options(v: NetworkInterfaceConfigView) -> OptionsView {
    interface_section(v)->Ok_0.options
}

/// The lists of an interface.
pub open spec fn interface_lists(v: NetworkInterfaceConfigView) -> ListsView {
    interface_section(v)->Ok_0.lists
}

proof fn lemma_interface_lookup(v: NetworkInterfaceConfigView, name: Seq<char>)
    requires
        protocol_of(v.ipv4_mode, v.ipv6_mode) is Some,
    ensures
        ({
            let p0 = None::<Seq<char>>;
            let p1 = pick(p0, name == "mbed_managed"@, owner_mark(v.ownership));
            let p2 = pick(p1, name == "mbed_id"@, owner_id(v.ownership, v.id));
            let p3 = pick(
                p2,
                name == "proto"@,
                Some(protocol_of(v.ipv4_mode, v.ipv6_mode)->Some_0),
            );
            let p4 = pick(p3, name == "device"@, Some(v.device));
            let p5 = pick(p4, name == "disabled"@, Some(flag(!v.enabled)));
            let p6 = pick(p5, name == "mtu"@, decimal_of(v.mtu));
            let p7 = pick(p6, name == "macaddr"@, v.mac_override);
            let p8 = pick(p7, name == "peerdns"@, Some(flag(v.peerdns)));
            let p9 = pick(p8, name == "clientid"@, v.dhcp_client_id);
            let p10 = pick(p9, name == "vendorid"@, v.dhcp_vendor_id);
            let p11 = pick(p10, name == "hostname"@, v.dhcp_hostname);
            let p12 = pick(p11, name == "norelease"@, Some(flag(v.dhcp_no_release)));
            lookup(interface_options(v), name) == p12
        }),
{
    let o0 = owner_options(v.ownership, v.id);
    lemma_lookup_owner(v.ownership, v.id, name);
    lemma_lookup_push(o0, name, "proto"@, protocol_of(v.ipv4_mode, v.ipv6_mode)->Some_0);
    let o1 = o0.push(("proto"@, protocol_of(v.ipv4_mode, v.ipv6_mode)->Some_0));
    lemma_lookup_push(o1, name, "device"@, v.device);
    let o2 = o1.push(("device"@, v.device));
    lemma_lookup_push(o2, name, "disabled"@, flag(!v.enabled));
    let o3 = o2.push(("disabled"@, flag(!v.enabled)));
    lemma_lookup_put(o3, name, "mtu"@, decimal_of(v.mtu));
    let o4 = put_some(o3, "mtu"@, decimal_of(v.mtu));
    lemma_lookup_put(o4, name, "macaddr"@, v.mac_override);
    let o5 = put_some(o4, "macaddr"@, v.mac_override);
    lemma_lookup_push(o5, name, "peerdns"@, flag(v.peerdns));
    let o6 = o5.push(("peerdns"@, flag(v.peerdns)));
    lemma_lookup_put(o6, name, "clientid"@, v.dhcp_client_id);
    let o7 = put_some(o6, "clientid"@, v.dhcp_client_id);
    lemma_lookup_put(o7, name, "vendorid"@, v.dhcp_vendor_id);
    let o8 = put_some(o7, "vendorid"@, v.dhcp_vendor_id);
    lemma_lookup_put(o8, name, "hostname"@, v.dhcp_hostname);
    let o9 = put_some(o8, "hostname"@, v.dhcp_hostname);
    lemma_lookup_push(o9, name, "norelease"@, flag(v.dhcp_no_release));
    let o10 = o9.push(("norelease"@, flag(v.dhcp_no_release)));
    assert(interface_options(v) == o10);
}

proof fn lemma_interface_set(v: NetworkInterfaceConfigView)
    requires
        protocol_of(v.ipv4_mode, v.ipv6_mode) is Some,
    ensures
        lookup(interface_options(v), "mbed_id"@) == owner_id(v.ownership, v.id),
        lookup(interface_options(v), "proto"@) == Some(protocol_of(v.ipv4_mode, v.ipv6_mode)->Some_0),
        lookup(interface_options(v), "device"@) == Some(v.device),
        lookup(interface_options(v), "disabled"@) == Some(flag(!v.enabled)),
        lookup(interface_options(v), "mtu"@) == decimal_of(v.mtu),
        lookup(interface_options(v), "macaddr"@) == v.mac_override,
        lookup(interface_options(v), "peerdns"@) == Some(flag(v.peerdns)),
        lookup(interface_options(v), "clientid"@) == v.dhcp_client_id,
        lookup(interface_options(v), "vendorid"@) == v.dhcp_vendor_id,
        lookup(interface_options(v), "hostname"@) == v.dhcp_hostname,
        lookup(interface_options(v), "norelease"@) == Some(flag(v.dhcp_no_release)),
{
    reveal_strlit("mbed_managed");
    assert(tag("mbed_managed"@) == (12nat, 'm', 'b', 'd'));
    reveal_strlit("mbed_id");
    assert(tag("mbed_id"@) == (7nat, 'm', 'b', 'd'));
    reveal_strlit("proto");
    assert(tag("proto"@) == (5nat, 'p', 'r', 'o'));
    reveal_strlit("device");
    assert(tag("device"@) == (6nat, 'd', 'e', 'e'));
    reveal_strlit("disabled");
    assert(tag("disabled"@) == (8nat, 'd', 'i', 'd'));
    reveal_strlit("mtu");
    assert(tag("mtu"@) == (3nat, 'm', 't', 'u'));
    reveal_strlit("macaddr");
    assert(tag("macaddr"@) == (7nat, 'm', 'a', 'r'));
    reveal_strlit("peerdns");
    assert(tag("peerdns"@) == (7nat, 'p', 'e', 's'));
    reveal_strlit("clientid");
    assert(tag("clientid"@) == (8nat, 'c', 'l', 'd'));
    reveal_strlit("vendorid");
    assert(tag("vendorid"@) == (8nat, 'v', 'e', 'd'));
    reveal_strlit("hostname");
    assert(tag("hostname"@) == (8nat, 'h', 'o', 'e'));
    reveal_strlit("norelease");
    assert(tag("norelease"@) == (9nat, 'n', 'o', 'e'));
    lemma_interface_lookup(v, "mbed_id"@);
    lemma_interface_lookup(v, "proto"@);
    lemma_interface_lookup(v, "device"@);
    lemma_interface_lookup(v, "disabled"@);
    lemma_interface_lookup(v, "mtu"@);
    lemma_interface_lookup(v, "macaddr"@);
    lemma_interface_lookup(v, "peerdns"@);
    lemma_interface_lookup(v, "clientid"@);
    lemma_interface_lookup(v, "vendorid"@);
    lemma_interface_lookup(v, "hostname"@);
    lemma_interface_lookup(v, "norelease"@);
}

proof fn lemma_interface_unset(v: NetworkInterfaceConfigView)
    requires
        protocol_of(v.ipv4_mode, v.ipv6_mode) is Some,
    ensures
        lookup(interface_options(v), "netmask"@) is None,
        lookup(interface_options(v), "ifname"@) is None,
        lookup(interface_options(v), "auto"@) is None,
        lookup(interface_options(v), "ipaddr"@) is None,
        lookup(interface_options(v), "ip6addr"@) is None,
        lookup(interface_options(v), "dns"@) is None,
        lookup(interface_options(v), "dns_search"@) is None,
        lookup(interface_options(v), "reqopts"@) is None,
{
    reveal_strlit("mbed_managed");
    assert(tag("mbed_managed"@) == (12nat, 'm', 'b', 'd'));
    reveal_strlit("mbed_id");
    assert(tag("mbed_id"@) == (7nat, 'm', 'b', 'd'));
    reveal_strlit("proto");
    assert(tag("proto"@) == (5nat, 'p', 'r', 'o'));
    reveal_strlit("device");
    assert(tag("device"@) == (6nat, 'd', 'e', 'e'));
    reveal_strlit("disabled");
    assert(tag("disabled"@) == (8nat, 'd', 'i', 'd'));
    reveal_strlit("mtu");
    assert(tag("mtu"@) == (3nat, 'm', 't', 'u'));
    reveal_strlit("macaddr");
    assert(tag("macaddr"@) == (7nat, 'm', 'a', 'r'));
    reveal_strlit("peerdns");
    assert(tag("peerdns"@) == (7nat, 'p', 'e', 's'));
    reveal_strlit("clientid");
    assert(tag("clientid"@) == (8nat, 'c', 'l', 'd'));
    reveal_strlit("vendorid");
    assert(tag("vendorid"@) == (8nat, 'v', 'e', 'd'));
    reveal_strlit("hostname");
    assert(tag("hostname"@) == (8nat, 'h', 'o', 'e'));
    reveal_strlit("norelease");
    assert(tag("norelease"@) == (9nat, 'n', 'o', 'e'));
    reveal_strlit("netmask");
    assert(tag("netmask"@) == (7nat, 'n', 'e', 'k'));
    reveal_strlit("ifname");
    assert(tag("ifname"@) == (6nat, 'i', 'f', 'e'));
    reveal_strlit("auto");
    assert(tag("auto"@) == (4nat, 'a', 'u', 'o'));
    reveal_strlit("ipaddr");
    assert(tag("ipaddr"@) == (6nat, 'i', 'p', 'r'));
    reveal_strlit("ip6addr");
    assert(tag("ip6addr"@) == (7nat, 'i', 'p', 'r'));
    reveal_strlit("dns");
    assert(tag("dns"@) == (3nat, 'd', 'n', 's'));
    reveal_strlit("dns_search");
    assert(tag("dns_search"@) == (10nat, 'd', 'n', 'h'));
    reveal_strlit("reqopts");
    assert(tag("reqopts"@) == (7nat, 'r', 'e', 's'));
    lemma_interface_lookup(v, "netmask"@);
    lemma_interface_lookup(v, "ifname"@);
    lemma_interface_lookup(v, "auto"@);
    lemma_interface_lookup(v, "ipaddr"@);
    lemma_interface_lookup(v, "ip6addr"@);
    lemma_interface_lookup(v, "dns"@);
    lemma_interface_lookup(v, "dns_search"@);
    lemma_interface_lookup(v, "reqopts"@);
}

proof fn lemma_interface_foreign(v: NetworkInterfaceConfigView)
    requires
        protocol_of(v.ipv4_mode, v.ipv6_mode) is Some,
    ensures
        lookup(interface_options(v), "gateway"@) is None,
        lookup(interface_options(v), "ip6gw"@) is None,
        lookup(interface_options(v), "ip6assign"@) is None,
        lookup(interface_options(v), "ip6hint"@) is None,
        lookup(interface_options(v), "ip6class"@) is None,
        lookup(interface_options(v), "delegate"@) is None,
        lookup(interface_options(v), "metric"@) is None,
        lookup(interface_options(v), "type"@) is None,
{
    reveal_strlit("mbed_managed");
    assert(tag("mbed_managed"@) == (12nat, 'm', 'b', 'd'));
    reveal_strlit("mbed_id");
    assert(tag("mbed_id"@) == (7nat, 'm', 'b', 'd'));
    reveal_strlit("proto");
    assert(tag("proto"@) == (5nat, 'p', 'r', 'o'));
    reveal_strlit("device");
    assert(tag("device"@) == (6nat, 'd', 'e', 'e'));
    reveal_strlit("disabled");
    assert(tag("disabled"@) == (8nat, 'd', 'i', 'd'));
    reveal_strlit("mtu");
    assert(tag("mtu"@) == (3nat, 'm', 't', 'u'));
    reveal_strlit("macaddr");
    assert(tag("macaddr"@) == (7nat, 'm', 'a', 'r'));
    reveal_strlit("peerdns");
    assert(tag("peerdns"@) == (7nat, 'p', 'e', 's'));
    reveal_strlit("clientid");
    assert(tag("clientid"@) == (8nat, 'c', 'l', 'd'));
    reveal_strlit("vendorid");
    assert(tag("vendorid"@) == (8nat, 'v', 'e', 'd'));
    reveal_strlit("hostname");
    assert(tag("hostname"@) == (8nat, 'h', 'o', 'e'));
    reveal_strlit("norelease");
    assert(tag("norelease"@) == (9nat, 'n', 'o', 'e'));
    reveal_strlit("gateway");
    assert(tag("gateway"@) == (7nat, 'g', 'a', 'y'));
    reveal_strlit("ip6gw");
    assert(tag("ip6gw"@) == (5nat, 'i', 'p', 'w'));
    reveal_strlit("ip6assign");
    assert(tag("ip6assign"@) == (9nat, 'i', 'p', 'n'));
    reveal_strlit("ip6hint");
    assert(tag("ip6hint"@) == (7nat, 'i', 'p', 't'));
    reveal_strlit("ip6class");
    assert(tag("ip6class"@) == (8nat, 'i', 'p', 's'));
    reveal_strlit("delegate");
    assert(tag("delegate"@) == (8nat, 'd', 'e', 'e'));
    reveal_strlit("metric");
    assert(tag("metric"@) == (6nat, 'm', 'e', 'c'));
    reveal_strlit("type");
    assert(tag("type"@) == (4nat, 't', 'y', 'e'));
    lemma_interface_lookup(v, "gateway"@);
    lemma_interface_lookup(v, "ip6gw"@);
    lemma_interface_lookup(v, "ip6assign"@);
    lemma_interface_lookup(v, "ip6hint"@);
    lemma_interface_lookup(v, "ip6class"@);
    lemma_interface_lookup(v, "delegate"@);
    lemma_interface_lookup(v, "metric"@);
    lemma_interface_lookup(v, "type"@);
}

proof fn lemma_interface_alien(v: NetworkInterfaceConfigView)
    requires
        protocol_of(v.ipv4_mode, v.ipv6_mode) is Some,
    ensures
        lookup(interface_options(v), "defaultroute"@) is None,
        lookup(interface_options(v), "force_link"@) is None,
        lookup(interface_options(v), "ip4table"@) is None,
        lookup(interface_options(v), "ip6table"@) is None,
        lookup(interface_options(v), "broadcast"@) is None,
        lookup(interface_options(v), "ip6prefix"@) is None,
        lookup(interface_options(v), "reqaddress"@) is None,
        lookup(interface_options(v), "reqprefix"@) is None,
{
    reveal_strlit("mbed_managed");
    assert(tag("mbed_managed"@) == (12nat, 'm', 'b', 'd'));
    reveal_strlit("mbed_id");
    assert(tag("mbed_id"@) == (7nat, 'm', 'b', 'd'));
    reveal_strlit("proto");
    assert(tag("proto"@) == (5nat, 'p', 'r', 'o'));
    reveal_strlit("device");
    assert(tag("device"@) == (6nat, 'd', 'e', 'e'));
    reveal_strlit("disabled");
    assert(tag("disabled"@) == (8nat, 'd', 'i', 'd'));
    reveal_strlit("mtu");
    assert(tag("mtu"@) == (3nat, 'm', 't', 'u'));
    reveal_strlit("macaddr");
    assert(tag("macaddr"@) == (7nat, 'm', 'a', 'r'));
    reveal_strlit("peerdns");
    assert(tag("peerdns"@) == (7nat, 'p', 'e', 's'));
    reveal_strlit("clientid");
    assert(tag("clientid"@) == (8nat, 'c', 'l', 'd'));
    reveal_strlit("vendorid");
    assert(tag("vendorid"@) == (8nat, 'v', 'e', 'd'));
    reveal_strlit("hostname");
    assert(tag("hostname"@) == (8nat, 'h', 'o', 'e'));
    reveal_strlit("norelease");
    assert(tag("norelease"@) == (9nat, 'n', 'o', 'e'));
    reveal_strlit("defaultroute");
    assert(tag("defaultroute"@) == (12nat, 'd', 'e', 'e'));
    reveal_strlit("force_link");
    assert(tag("force_link"@) == (10nat, 'f', 'o', 'k'));
    reveal_strlit("ip4table");
    assert(tag("ip4table"@) == (8nat, 'i', 'p', 'e'));
    reveal_strlit("ip6table");
    assert(tag("ip6table"@) == (8nat, 'i', 'p', 'e'));
    reveal_strlit("broadcast");
    assert(tag("broadcast"@) == (9nat, 'b', 'r', 't'));
    reveal_strlit("ip6prefix");
    assert(tag("ip6prefix"@) == (9nat, 'i', 'p', 'x'));
    reveal_strlit("reqaddress");
    assert(tag("reqaddress"@) == (10nat, 'r', 'e', 's'));
    reveal_strlit("reqprefix");
    assert(tag("reqprefix"@) == (9nat, 'r', 'e', 'x'));
    lemma_interface_lookup(v, "defaultroute"@);
    lemma_interface_lookup(v, "force_link"@);
    lemma_interface_lookup(v, "ip4table"@);
    lemma_interface_lookup(v, "ip6table"@);
    lemma_interface_lookup(v, "broadcast"@);
    lemma_interface_lookup(v, "ip6prefix"@);
    lemma_interface_lookup(v, "reqaddress"@);
    lemma_interface_lookup(v, "reqprefix"@);
}

/// What was found, or else a list where it is the one that is looked for and holds anything.
pub open spec fn pick_list(
    found: Option<Seq<Seq<char>>>,
    here: bool,
    values: Seq<Seq<char>>,
) -> Option<Seq<Seq<char>>> {
    if found is Some {
        found
    } else if here && values.len() > 0 {
        Some(values)
    } else {
        None
    }
}

pub proof fn lemma_five_lists(lists: ListsView, name: Seq<char>)
    requires
        lists.len() == 5,
    ensures
        list_from(lists, name, 0) == pick_list(
            pick_list(
                pick_list(
                    pick_list(
                        pick_list(None, lists[0].0 == name, lists[0].1),
                        lists[1].0 == name,
                        lists[1].1,
                    ),
                    lists[2].0 == name,
                    lists[2].1,
                ),
                lists[3].0 == name,
                lists[3].1,
            ),
            lists[4].0 == name,
            lists[4].1,
        ),
{
    assert(list_from(lists, name, 5) is None);
    assert(list_from(lists, name, 4) == pick_list(None, lists[4].0 == name, lists[4].1));
    let f3 = list_from(lists, name, 3);
    let f2 = list_from(lists, name, 2);
    let f1 = list_from(lists, name, 1);
    assert(f3 == pick_list(
        pick_list(None, lists[3].0 == name, lists[3].1),
        lists[4].0 == name,
        lists[4].1,
    ));
    assert(f2 == pick_list(
        pick_list(pick_list(None, lists[2].0 == name, lists[2].1), lists[3].0 == name, lists[3].1),
        lists[4].0 == name,
        lists[4].1,
    ));
    assert(f1 == pick_list(
        pick_list(
            pick_list(
                pick_list(None, lists[1].0 == name, lists[1].1),
                lists[2].0 == name,
                lists[2].1,
            ),
            lists[3].0 == name,
            lists[3].1,
        ),
        lists[4].0 == name,
        lists[4].1,
    ));
}

/// A list as it is found: nothing where it is empty.
pub open spec fn filled(values: Seq<Seq<char>>) -> Option<Seq<Seq<char>>> {
    if values.len() > 0 {
        Some(values)
    } else {
        None
    }
}

proof fn lemma_interface_filled(v: NetworkInterfaceConfigView)
    requires
        protocol_of(v.ipv4_mode, v.ipv6_mode) is Some,
    ensures
        interface_lists(v).len() == 5,
        list_from(interface_lists(v), "ipaddr"@, 0) == filled(interface_lists(v)[0].1),
        list_from(interface_lists(v), "ip6addr"@, 0) == filled(interface_lists(v)[1].1),
        list_from(interface_lists(v), "dns"@, 0) == filled(interface_lists(v)[2].1),
        list_from(interface_lists(v), "dns_search"@, 0) == filled(interface_lists(v)[3].1),
        list_from(interface_lists(v), "reqopts"@, 0) == filled(interface_lists(v)[4].1),
{
    reveal_strlit("ipaddr");
    assert(tag("ipaddr"@) == (6nat, 'i', 'p', 'r'));
    reveal_strlit("ip6addr");
    assert(tag("ip6addr"@) == (7nat, 'i', 'p', 'r'));
    reveal_strlit("dns");
    assert(tag("dns"@) == (3nat, 'd', 'n', 's'));
    reveal_strlit("dns_search");
    assert(tag("dns_search"@) == (10nat, 'd', 'n', 'h'));
    reveal_strlit("reqopts");
    assert(tag("reqopts"@) == (7nat, 'r', 'e', 's'));
    let l = interface_lists(v);
    assert(l[0].0 == "ipaddr"@);
    assert(l[1].0 == "ip6addr"@);
    assert(l[2].0 == "dns"@);
    assert(l[3].0 == "dns_search"@);
    assert(l[4].0 == "reqopts"@);
    lemma_five_lists(l, "ipaddr"@);
    lemma_five_lists(l, "ip6addr"@);
    lemma_five_lists(l, "dns"@);
    lemma_five_lists(l, "dns_search"@);
    lemma_five_lists(l, "reqopts"@);
}

proof fn lemma_interface_scalar_lists(v: NetworkInterfaceConfigView)
    requires
        protocol_of(v.ipv4_mode, v.ipv6_mode) is Some,
    ensures
        interface_lists(v).len() == 5,
        list_from(interface_lists(v), "mtu"@, 0) is None,
        list_from(interface_lists(v), "macaddr"@, 0) is None,
        list_from(interface_lists(v), "clientid"@, 0) is None,
        list_from(interface_lists(v), "vendorid"@, 0) is None,
        list_from(interface_lists(v), "hostname"@, 0) is None,
        list_from(interface_lists(v), "netmask"@, 0) is None,
        list_from(interface_lists(v), "ifname"@, 0) is None,
        list_from(interface_lists(v), "auto"@, 0) is None,
        list_from(interface_lists(v), "mbed_id"@, 0) is None,
{
    reveal_strlit("ipaddr");
    assert(tag("ipaddr"@) == (6nat, 'i', 'p', 'r'));
    reveal_strlit("ip6addr");
    assert(tag("ip6addr"@) == (7nat, 'i', 'p', 'r'));
    reveal_strlit("dns");
    assert(tag("dns"@) == (3nat, 'd', 'n', 's'));
    reveal_strlit("dns_search");
    assert(tag("dns_search"@) == (10nat, 'd', 'n', 'h'));
    reveal_strlit("reqopts");
    assert(tag("reqopts"@) == (7nat, 'r', 'e', 's'));
    reveal_strlit("mtu");
    assert(tag("mtu"@) == (3nat, 'm', 't', 'u'));
    reveal_strlit("macaddr");
    assert(tag("macaddr"@) == (7nat, 'm', 'a', 'r'));
    reveal_strlit("clientid");
    assert(tag("clientid"@) == (8nat, 'c', 'l', 'd'));
    reveal_strlit("vendorid");
    assert(tag("vendorid"@) == (8nat, 'v', 'e', 'd'));
    reveal_strlit("hostname");
    assert(tag("hostname"@) == (8nat, 'h', 'o', 'e'));
    reveal_strlit("netmask");
    assert(tag("netmask"@) == (7nat, 'n', 'e', 'k'));
    reveal_strlit("ifname");
    assert(tag("ifname"@) == (6nat, 'i', 'f', 'e'));
    reveal_strlit("auto");
    assert(tag("auto"@) == (4nat, 'a', 'u', 'o'));
    reveal_strlit("mbed_id");
    assert(tag("mbed_id"@) == (7nat, 'm', 'b', 'd'));
    let l = interface_lists(v);
    assert(l[0].0 == "ipaddr"@);
    assert(l[1].0 == "ip6addr"@);
    assert(l[2].0 == "dns"@);
    assert(l[3].0 == "dns_search"@);
    assert(l[4].0 == "reqopts"@);
    lemma_five_lists(l, "mtu"@);
    lemma_five_lists(l, "macaddr"@);
    lemma_five_lists(l, "clientid"@);
    lemma_five_lists(l, "vendorid"@);
    lemma_five_lists(l, "hostname"@);
    lemma_five_lists(l, "netmask"@);
    lemma_five_lists(l, "ifname"@);
    lemma_five_lists(l, "auto"@);
    lemma_five_lists(l, "mbed_id"@);
}

proof fn lemma_interface_foreign_lists(v: NetworkInterfaceConfigView)
    requires
        protocol_of(v.ipv4_mode, v.ipv6_mode) is Some,
    ensures
        interface_lists(v).len() == 5,
        list_from(interface_lists(v), "gateway"@, 0) is None,
        list_from(interface_lists(v), "ip6gw"@, 0) is None,
        list_from(interface_lists(v), "ip6assign"@, 0) is None,
        list_from(interface_lists(v), "ip6hint"@, 0) is None,
        list_from(interface_lists(v), "ip6class"@, 0) is None,
        list_from(interface_lists(v), "delegate"@, 0) is None,
        list_from(interface_lists(v), "metric"@, 0) is None,
        list_from(interface_lists(v), "type"@, 0) is None,
{
    reveal_strlit("ipaddr");
    assert(tag("ipaddr"@) == (6nat, 'i', 'p', 'r'));
    reveal_strlit("ip6addr");
    assert(tag("ip6addr"@) == (7nat, 'i', 'p', 'r'));
    reveal_strlit("dns");
    assert(tag("dns"@) == (3nat, 'd', 'n', 's'));
    reveal_strlit("dns_search");
    assert(tag("dns_search"@) == (10nat, 'd', 'n', 'h'));
    reveal_strlit("reqopts");
    assert(tag("reqopts"@) == (7nat, 'r', 'e', 's'));
    reveal_strlit("gateway");
    assert(tag("gateway"@) == (7nat, 'g', 'a', 'y'));
    reveal_strlit("ip6gw");
    assert(tag("ip6gw"@) == (5nat, 'i', 'p', 'w'));
    reveal_strlit("ip6assign");
    assert(tag("ip6assign"@) == (9nat, 'i', 'p', 'n'));
    reveal_strlit("ip6hint");
    assert(tag("ip6hint"@) == (7nat, 'i', 'p', 't'));
    reveal_strlit("ip6class");
    assert(tag("ip6class"@) == (8nat, 'i', 'p', 's'));
    reveal_strlit("delegate");
    assert(tag("delegate"@) == (8nat, 'd', 'e', 'e'));
    reveal_strlit("metric");
    assert(tag("metric"@) == (6nat, 'm', 'e', 'c'));
    reveal_strlit("type");
    assert(tag("type"@) == (4nat, 't', 'y', 'e'));
    let l = interface_lists(v);
    assert(l[0].0 == "ipaddr"@);
    assert(l[1].0 == "ip6addr"@);
    assert(l[2].0 == "dns"@);
    assert(l[3].0 == "dns_search"@);
    assert(l[4].0 == "reqopts"@);
    lemma_five_lists(l, "gateway"@);
    lemma_five_lists(l, "ip6gw"@);
    lemma_five_lists(l, "ip6assign"@);
    lemma_five_lists(l, "ip6hint"@);
    lemma_five_lists(l, "ip6class"@);
    lemma_five_lists(l, "delegate"@);
    lemma_five_lists(l, "metric"@);
    lemma_five_lists(l, "type"@);
}

proof fn lemma_interface_alien_lists(v: NetworkInterfaceConfigView)
    requires
        protocol_of(v.ipv4_mode, v.ipv6_mode) is Some,
    ensures
        interface_lists(v).len() == 5,
        list_from(interface_lists(v), "defaultroute"@, 0) is None,
        list_from(interface_lists(v), "force_link"@, 0) is None,
        list_from(interface_lists(v), "ip4table"@, 0) is None,
        list_from(interface_lists(v), "ip6table"@, 0) is None,
        list_from(interface_lists(v), "broadcast"@, 0) is None,
        list_from(interface_lists(v), "ip6prefix"@, 0) is None,
        list_from(interface_lists(v), "reqaddress"@, 0) is None,
        list_from(interface_lists(v), "reqprefix"@, 0) is None,
{
    reveal_strlit("ipaddr");
    assert(tag("ipaddr"@) == (6nat, 'i', 'p', 'r'));
    reveal_strlit("ip6addr");
    assert(tag("ip6addr"@) == (7nat, 'i', 'p', 'r'));
    reveal_strlit("dns");
    assert(tag("dns"@) == (3nat, 'd', 'n', 's'));
    reveal_strlit("dns_search");
    assert(tag("dns_search"@) == (10nat, 'd', 'n', 'h'));
    reveal_strlit("reqopts");
    assert(tag("reqopts"@) == (7nat, 'r', 'e', 's'));
    reveal_strlit("defaultroute");
    assert(tag("defaultroute"@) == (12nat, 'd', 'e', 'e'));
    reveal_strlit("force_link");
    assert(tag("force_link"@) == (10nat, 'f', 'o', 'k'));
    reveal_strlit("ip4table");
    assert(tag("ip4table"@) == (8nat, 'i', 'p', 'e'));
    reveal_strlit("ip6table");
    assert(tag("ip6table"@) == (8nat, 'i', 'p', 'e'));
    reveal_strlit("broadcast");
    assert(tag("broadcast"@) == (9nat, 'b', 'r', 't'));
    reveal_strlit("ip6prefix");
    assert(tag("ip6prefix"@) == (9nat, 'i', 'p', 'x'));
    reveal_strlit("reqaddress");
    assert(tag("reqaddress"@) == (10nat, 'r', 'e', 's'));
    reveal_strlit("reqprefix");
    assert(tag("reqprefix"@) == (9nat, 'r', 'e', 'x'));
    let l = interface_lists(v);
    assert(l[0].0 == "ipaddr"@);
    assert(l[1].0 == "ip6addr"@);
    assert(l[2].0 == "dns"@);
    assert(l[3].0 == "dns_search"@);
    assert(l[4].0 == "reqopts"@);
    lemma_five_lists(l, "defaultroute"@);
    lemma_five_lists(l, "force_link"@);
    lemma_five_lists(l, "ip4table"@);
    lemma_five_lists(l, "ip6table"@);
    lemma_five_lists(l, "broadcast"@);
    lemma_five_lists(l, "ip6prefix"@);
    lemma_five_lists(l, "reqaddress"@);
    lemma_five_lists(l, "reqprefix"@);
}

proof fn lemma_interface_gets(selector: Seq<char>, v: NetworkInterfaceConfigView)
    requires
        protocol_of(v.ipv4_mode, v.ipv6_mode) is Some,
    ensures
        ({
            let s = written(selector, interface_section(v)->Ok_0);
            &&& s.get("mbed_id"@) == one(owner_id(v.ownership, v.id))
            &&& s.get("proto"@) == Some(seq![protocol_of(v.ipv4_mode, v.ipv6_mode)->Some_0])
            &&& s.get("device"@) == Some(seq![v.device])
            &&& s.get("disabled"@) == Some(seq![flag(!v.enabled)])
            &&& s.get("mtu"@) == one(decimal_of(v.mtu))
            &&& s.get("macaddr"@) == one(v.mac_override)
            &&& s.get("peerdns"@) == Some(seq![flag(v.peerdns)])
            &&& s.get("clientid"@) == one(v.dhcp_client_id)
            &&& s.get("vendorid"@) == one(v.dhcp_vendor_id)
            &&& s.get("hostname"@) == one(v.dhcp_hostname)
            &&& s.get("norelease"@) == Some(seq![flag(v.dhcp_no_release)])
            &&& s.get("netmask"@) is None
            &&& s.get("ifname"@) is None
            &&& s.get("auto"@) is None
            &&& s.values("ipaddr"@) == interface_lists(v)[0].1
            &&& s.values("ip6addr"@) == interface_lists(v)[1].1
            &&& s.values("dns"@) == interface_lists(v)[2].1
            &&& s.values("dns_search"@) == interface_lists(v)[3].1
            &&& s.values("reqopts"@) == interface_lists(v)[4].1
        }),
{
    let r = interface_section(v)->Ok_0;
    let s = written(selector, r);
    lemma_interface_set(v);
    lemma_interface_unset(v);
    lemma_interface_filled(v);
    lemma_interface_scalar_lists(v);
    lemma_written_get(selector, r, "mbed_id"@);
    lemma_written_get(selector, r, "proto"@);
    lemma_written_get(selector, r, "device"@);
    lemma_written_get(selector, r, "disabled"@);
    lemma_written_get(selector, r, "mtu"@);
    lemma_written_get(selector, r, "macaddr"@);
    lemma_written_get(selector, r, "peerdns"@);
    lemma_written_get(selector, r, "clientid"@);
    lemma_written_get(selector, r, "vendorid"@);
    lemma_written_get(selector, r, "hostname"@);
    lemma_written_get(selector, r, "norelease"@);
    lemma_written_get(selector, r, "netmask"@);
    lemma_written_get(selector, r, "ifname"@);
    lemma_written_get(selector, r, "auto"@);
    lemma_written_get(selector, r, "ipaddr"@);
    lemma_written_get(selector, r, "ip6addr"@);
    lemma_written_get(selector, r, "dns"@);
    lemma_written_get(selector, r, "dns_search"@);
    lemma_written_get(selector, r, "reqopts"@);
    assert(s.values("ipaddr"@) =~= interface_lists(v)[0].1);
    assert(s.values("ip6addr"@) =~= interface_lists(v)[1].1);
    assert(s.values("dns"@) =~= interface_lists(v)[2].1);
    assert(s.values("dns_search"@) =~= interface_lists(v)[3].1);
    assert(s.values("reqopts"@) =~= interface_lists(v)[4].1);
}

proof fn lemma_interface_clean(selector: Seq<char>, v: NetworkInterfaceConfigView)
    requires
        protocol_of(v.ipv4_mode, v.ipv6_mode) is Some,
    ensures
        !has_any(
            written(selector, interface_section(v)->Ok_0),
            unsupported_options("interface"@),
        ),
        has_cardinality(
            written(selector, interface_section(v)->Ok_0).options,
            list_options("interface"@),
        ),
{
    let r = interface_section(v)->Ok_0;
    let s = written(selector, r);
    lemma_interface_foreign(v);
    lemma_interface_alien(v);
    lemma_interface_foreign_lists(v);
    lemma_interface_alien_lists(v);
    lemma_written_get(selector, r, "gateway"@);
    lemma_written_get(selector, r, "ip6gw"@);
    lemma_written_get(selector, r, "ip6assign"@);
    lemma_written_get(selector, r, "ip6hint"@);
    lemma_written_get(selector, r, "ip6class"@);
    lemma_written_get(selector, r, "delegate"@);
    lemma_written_get(selector, r, "metric"@);
    lemma_written_get(selector, r, "type"@);
    lemma_written_get(selector, r, "defaultroute"@);
    lemma_written_get(selector, r, "force_link"@);
    lemma_written_get(selector, r, "ip4table"@);
    lemma_written_get(selector, r, "ip6table"@);
    lemma_written_get(selector, r, "broadcast"@);
    lemma_written_get(selector, r, "ip6prefix"@);
    lemma_written_get(selector, r, "reqaddress"@);
    lemma_written_get(selector, r, "reqprefix"@);
    let names = unsupported_options("interface"@);
    assert forall|i: int| 0 <= i < names.len() implies !s.has(#[trigger] names[i]) by {
        assert(i == 0 || i == 1 || i == 2 || i == 3 || i == 4 || i == 5 || i == 6 || i == 7 || i == 8
            || i == 9 || i == 10 || i == 11 || i == 12 || i == 13 || i == 14 || i == 15);
    }
    let lists = list_options("interface"@);
    assert forall|k: int| 0 <= k < r.lists.len() implies lists.contains(#[trigger] r.lists[k].0) by {
        assert(r.lists[k].0 == lists[k]);
    }
    lemma_written_cardinality(selector, r);
}

/// Whether the addresses of the older family come first.
pub open spec fn older_first(a: Seq<IpNetwork>) -> bool {
    forall|i: int, j: int|
        0 <= i < j < a.len() && (#[trigger] a[i]).address is V6 ==> (#[trigger] a[j]).address is V6
}

/// The number of addresses before the first of the newer family, from `i` on.
pub open spec fn older_count(a: Seq<IpNetwork>, i: int) -> int
    decreases a.len() - i,
{
    if i < 0 || i >= a.len() {
        a.len() as int
    } else if a[i].address is V6 {
        i
    } else {
        older_count(a, i + 1)
    }
}

proof fn lemma_older_count(a: Seq<IpNetwork>, i: int)
    requires
        0 <= i <= a.len(),
        older_first(a),
        forall|j: int| 0 <= j < i ==> (#[trigger] a[j]).address is V4,
    ensures
        i <= older_count(a, i) <= a.len(),
        forall|j: int| 0 <= j < older_count(a, i) ==> (#[trigger] a[j]).address is V4,
        forall|j: int| older_count(a, i) <= j < a.len() ==> (#[trigger] a[j]).address is V6,
    decreases a.len() - i,
{
    if i < a.len() && a[i].address is V4 {
        lemma_older_count(a, i + 1);
    }
}

/// The texts of the networks from `from` up to `to`.
pub open spec fn network_texts(a: Seq<IpNetwork>, from: int, to: int) -> Seq<Seq<char>> {
    Seq::new((to - from) as nat, |i: int| network_format(a[from + i]))
}

proof fn lemma_family_texts(acc: Seq<Seq<char>>, a: Seq<IpNetwork>, k: int, i: int)
    requires
        0 <= i <= a.len(),
        0 <= k <= a.len(),
        forall|j: int| 0 <= j < k ==> (#[trigger] a[j]).address is V4,
        forall|j: int| k <= j < a.len() ==> (#[trigger] a[j]).address is V6,
    ensures
        family_texts(acc, a, false, i) == (if i < k {
            acc + network_texts(a, i, k)
        } else {
            acc
        }),
        family_texts(acc, a, true, i) == (if i < k {
            acc + network_texts(a, k, a.len() as int)
        } else {
            acc + network_texts(a, i, a.len() as int)
        }),
    decreases a.len() - i,
{
    if i < a.len() {
        let next = acc.push(network_format(a[i]));
        if i < k {
            assert(a[i].address is V4);
            lemma_family_texts(next, a, k, i + 1);
            lemma_family_texts(acc, a, k, i + 1);
            if i + 1 < k {
                assert(next + network_texts(a, i + 1, k) =~= acc + network_texts(a, i, k));
            } else {
                assert(next =~= acc + network_texts(a, i, k));
            }
        } else {
            assert(a[i].address is V6);
            lemma_family_texts(next, a, k, i + 1);
            lemma_family_texts(acc, a, k, i + 1);
            assert(next + network_texts(a, i + 1, a.len() as int) =~= acc + network_texts(
                a,
                i,
                a.len() as int,
            ));
        }
    } else {
        assert(acc + network_texts(a, i, a.len() as int) =~= acc);
    }
}

pub proof fn lemma_map_all<A, B>(s: Seq<A>, f: spec_fn(A) -> Option<B>, target: Seq<B>)
    requires
        s.len() == target.len(),
        forall|i: int| 0 <= i < s.len() ==> f(#[trigger] s[i]) == Some(target[i]),
    ensures
        map_all(s, f) == Some(target),
{
    assert(Seq::new(s.len(), |i: int| f(s[i])->Some_0) =~= target);
}

proof fn lemma_read_addresses(s: UciSectionView, a: Seq<IpNetwork>)
    requires
        older_first(a),
        s.get("netmask"@) is None,
        s.values("ipaddr"@) == family_texts(Seq::empty(), a, false, 0),
        s.values("ip6addr"@) == family_texts(Seq::empty(), a, true, 0),
    ensures
        interface_addresses(s) == Some(a),
{
    let k = older_count(a, 0);
    lemma_older_count(a, 0);
    lemma_family_texts(Seq::empty(), a, k, 0);
    let e = Seq::<Seq<char>>::empty();
    let old = network_texts(a, 0, k);
    let new = network_texts(a, k, a.len() as int);
    assert(s.values("ipaddr"@) =~= old);
    assert(s.values("ip6addr"@) =~= new);
    let mask = s.first("netmask"@);
    let f = |r: Seq<char>| interface_address(r, mask);
    let g = |r: Seq<char>| ipv6_address(r);
    assert forall|i: int| 0 <= i < old.len() implies f(#[trigger] old[i]) == Some(a.take(k)[i]) by {
        lemma_slash(a[i]);
    }
    assert forall|i: int| 0 <= i < new.len() implies g(#[trigger] new[i]) == Some(a.skip(k)[i]) by {
        lemma_slash(a[k + i]);
    }
    lemma_map_all(old, f, a.take(k));
    lemma_map_all(new, g, a.skip(k));
    assert(a.take(k) + a.skip(k) =~= a);
}

proof fn lemma_read_dns(values: Seq<Seq<char>>, a: Seq<IpAddr>)
    requires
        values == Seq::new(a.len(), |i: int| address_format(a[i])),
    ensures
        map_all(values, |r: Seq<char>| Addresses::value(r)) == Some(a),
{
    let f = |r: Seq<char>| Addresses::value(r);
    assert forall|i: int| 0 <= i < values.len() implies f(#[trigger] values[i]) == Some(a[i]) by {
        law_address_round_trips(a[i]);
    }
    lemma_map_all(values, f, a);
}

proof fn lemma_read_requests(values: Seq<Seq<char>>, a: Seq<u16>)
    requires
        values == Seq::new(a.len(), |i: int| decimal(a[i] as nat)),
    ensures
        map_all(values, |r: Seq<char>| Halves::value(r)) == Some(a),
{
    let f = |r: Seq<char>| Halves::value(r);
    assert forall|i: int| 0 <= i < values.len() implies f(#[trigger] values[i]) == Some(a[i]) by {
        law_sized_numbers_round_trip(0, a[i], 0);
    }
    lemma_map_all(values, f, a);
}

/// Whether the modes of an interface are those that its addresses show: a family is static where it has
/// addresses, and only there.
pub open spec fn modes_fit(v: NetworkInterfaceConfigView) -> bool {
    &&& (v.ipv4_mode == NetworkAddressMode::Static) == (exists|i: int|
        0 <= i < v.addresses.len() && (#[trigger] v.addresses[i]).address is V4)
    &&& (v.ipv6_mode == NetworkAddressMode::Static) == (exists|i: int|
        0 <= i < v.addresses.len() && (#[trigger] v.addresses[i]).address is V6)
}

proof fn lemma_modes(v: NetworkInterfaceConfigView)
    requires
        protocol_of(v.ipv4_mode, v.ipv6_mode) is Some,
        modes_fit(v),
    ensures
        address_modes(protocol_of(v.ipv4_mode, v.ipv6_mode)->Some_0, v.addresses) == Some(
            (v.ipv4_mode, v.ipv6_mode),
        ),
{
    reveal_strlit("none");
    assert(tag("none"@) == (4nat, 'n', 'o', 'e'));
    reveal_strlit("static");
    assert(tag("static"@) == (6nat, 's', 't', 'c'));
    reveal_strlit("dhcp");
    assert(tag("dhcp"@) == (4nat, 'd', 'h', 'p'));
    reveal_strlit("dhcpv6");
    assert(tag("dhcpv6"@) == (6nat, 'd', 'h', '6'));
    if v.addresses.len() > 0 {
        assert(v.addresses[0].address is V4 || v.addresses[0].address is V6);
    }
}

/// An interface that is written is read back as itself, but for its DHCP server, which has a
/// section of its own. The addresses of the older family come first, and the modes are those that
/// the addresses show.
pub proof fn law_written_interface_is_read_back(selector: Seq<char>, v: NetworkInterfaceConfigView)
    requires
        v.ownership == ObjectOwnership::AgentOwned || v.id == selector,
        object_section(NetworkObjectView::Interface(v), true) is Ok,
        older_first(v.addresses),
        modes_fit(v),
    ensures
        network_object_value(
            written(selector, object_section(NetworkObjectView::Interface(v), true)->Ok_0),
            v.ownership,
        ) == Some(NetworkObjectView::Interface(NetworkInterfaceConfigView { dhcp_server: None, ..v })),
{
    let r = interface_section(v)->Ok_0;
    let s = written(selector, r);
    lemma_written_type(selector, r);
    lemma_interface_gets(selector, v);
    lemma_interface_clean(selector, v);
    lemma_read_addresses(s, v.addresses);
    lemma_modes(v);
    lemma_read_dns(s.values("dns"@), v.dns_servers);
    lemma_read_requests(s.values("reqopts"@), v.dhcp_request_options);
    lemma_flag(!v.enabled);
    lemma_flag(v.peerdns);
    lemma_flag(v.dhcp_no_release);
    if let Some(m) = v.mtu {
        law_sized_numbers_round_trip(0, 0, m);
    }
    assert(interface_value(s, v.ownership) == Some(
        NetworkInterfaceConfigView { dhcp_server: None, ..v },
    ));
}

proof fn lemma_dhcp_lookup(
    id: Seq<char>,
    v: NetworkDhcpServerConfigView,
    agent_owned: bool,
    name: Seq<char>,
)
    requires
        name != "mbed_managed"@,
        name != "mbed_id"@,
    ensures
        ({
            let p0 = None::<Seq<char>>;
            let p1 = pick(p0, name == "interface"@, Some(id));
            let p2 = pick(p1, name == "ignore"@, Some(flag(!v.enabled)));
            let p3 = pick(p2, name == "start"@, Some(decimal(v.start as nat)));
            let p4 = pick(p3, name == "limit"@, Some(decimal(v.limit as nat)));
            let p5 = pick(p4, name == "leasetime"@, Some(v.lease_time));
            let p6 = pick(p5, name == "force"@, Some(flag(v.force)));
            let p7 = pick(p6, name == "dhcpv6"@, Some(dhcp_mode_name(v.dhcpv6_mode)));
            let p8 = pick(p7, name == "ra"@, Some(dhcp_mode_name(v.ra_mode)));
            let p9 = pick(p8, name == "ndp"@, Some(dhcp_mode_name(v.ndp_mode)));
            lookup(dhcp_section_of(id, v, agent_owned).options, name) == p9
        }),
{
    let o0 = if agent_owned {
        owner_options(ObjectOwnership::AgentOwned, id)
    } else {
        Seq::empty()
    };
    if agent_owned {
        lemma_lookup_owner(ObjectOwnership::AgentOwned, id, name);
    }
    assert(lookup(o0, name) is None);
    lemma_lookup_push(o0, name, "interface"@, id);
    let o1 = o0.push(("interface"@, id));
    lemma_lookup_push(o1, name, "ignore"@, flag(!v.enabled));
    let o2 = o1.push(("ignore"@, flag(!v.enabled)));
    lemma_lookup_push(o2, name, "start"@, decimal(v.start as nat));
    let o3 = o2.push(("start"@, decimal(v.start as nat)));
    lemma_lookup_push(o3, name, "limit"@, decimal(v.limit as nat));
    let o4 = o3.push(("limit"@, decimal(v.limit as nat)));
    lemma_lookup_push(o4, name, "leasetime"@, v.lease_time);
    let o5 = o4.push(("leasetime"@, v.lease_time));
    lemma_lookup_push(o5, name, "force"@, flag(v.force));
    let o6 = o5.push(("force"@, flag(v.force)));
    lemma_lookup_push(o6, name, "dhcpv6"@, dhcp_mode_name(v.dhcpv6_mode));
    let o7 = o6.push(("dhcpv6"@, dhcp_mode_name(v.dhcpv6_mode)));
    lemma_lookup_push(o7, name, "ra"@, dhcp_mode_name(v.ra_mode));
    let o8 = o7.push(("ra"@, dhcp_mode_name(v.ra_mode)));
    lemma_lookup_push(o8, name, "ndp"@, dhcp_mode_name(v.ndp_mode));
    let o9 = o8.push(("ndp"@, dhcp_mode_name(v.ndp_mode)));
    assert(dhcp_section_of(id, v, agent_owned).options == o9);
}

proof fn lemma_dhcp_set(id: Seq<char>, v: NetworkDhcpServerConfigView, agent_owned: bool)
    ensures
        ({
            let o = dhcp_section_of(id, v, agent_owned).options;
            &&& lookup(o, "interface"@) == Some(id)
            &&& lookup(o, "ignore"@) == Some(flag(!v.enabled))
            &&& lookup(o, "start"@) == Some(decimal(v.start as nat))
            &&& lookup(o, "limit"@) == Some(decimal(v.limit as nat))
            &&& lookup(o, "leasetime"@) == Some(v.lease_time)
            &&& lookup(o, "force"@) == Some(flag(v.force))
            &&& lookup(o, "dhcpv6"@) == Some(dhcp_mode_name(v.dhcpv6_mode))
            &&& lookup(o, "ra"@) == Some(dhcp_mode_name(v.ra_mode))
            &&& lookup(o, "ndp"@) == Some(dhcp_mode_name(v.ndp_mode))
            &&& lookup(o, "dhcp_option"@) is None
        }),
{
    reveal_strlit("mbed_managed");
    assert(tag("mbed_managed"@) == (12nat, 'm', 'b', 'd'));
    reveal_strlit("mbed_id");
    assert(tag("mbed_id"@) == (7nat, 'm', 'b', 'd'));
    reveal_strlit("interface");
    assert(tag("interface"@) == (9nat, 'i', 'n', 'e'));
    reveal_strlit("ignore");
    assert(tag("ignore"@) == (6nat, 'i', 'g', 'e'));
    reveal_strlit("start");
    assert(tag("start"@) == (5nat, 's', 't', 't'));
    reveal_strlit("limit");
    assert(tag("limit"@) == (5nat, 'l', 'i', 't'));
    reveal_strlit("leasetime");
    assert(tag("leasetime"@) == (9nat, 'l', 'e', 'e'));
    reveal_strlit("force");
    assert(tag("force"@) == (5nat, 'f', 'o', 'e'));
    reveal_strlit("dhcpv6");
    assert(tag("dhcpv6"@) == (6nat, 'd', 'h', '6'));
    reveal_strlit("ra");
    assert(tag("ra"@) == (2nat, 'r', 'a', 'a'));
    reveal_strlit("ndp");
    assert(tag("ndp"@) == (3nat, 'n', 'd', 'p'));
    reveal_strlit("dhcp_option");
    assert(tag("dhcp_option"@) == (11nat, 'd', 'h', 'n'));
    lemma_dhcp_lookup(id, v, agent_owned, "interface"@);
    lemma_dhcp_lookup(id, v, agent_owned, "ignore"@);
    lemma_dhcp_lookup(id, v, agent_owned, "start"@);
    lemma_dhcp_lookup(id, v, agent_owned, "limit"@);
    lemma_dhcp_lookup(id, v, agent_owned, "leasetime"@);
    lemma_dhcp_lookup(id, v, agent_owned, "force"@);
    lemma_dhcp_lookup(id, v, agent_owned, "dhcpv6"@);
    lemma_dhcp_lookup(id, v, agent_owned, "ra"@);
    lemma_dhcp_lookup(id, v, agent_owned, "ndp"@);
    lemma_dhcp_lookup(id, v, agent_owned, "dhcp_option"@);
}

/// The texts of the options that a server hands out.
pub open spec fn dhcp_texts(o: Seq<NetworkDhcpOptionView>) -> Seq<Seq<char>> {
    Seq::new(o.len(), |i: int| decimal(o[i].code as nat) + ","@ + o[i].value)
}

/// Whether an option that a server hands out has a code and a value that can be read.
pub open spec fn is_plain_option(o: NetworkDhcpOptionView) -> bool {
    1 <= o.code <= 255 && is_dhcp_option_text(o.value)
}

proof fn lemma_dhcp_option(o: NetworkDhcpOptionView)
    requires
        is_plain_option(o),
    ensures
        dhcp_option_value(decimal(o.code as nat) + ","@ + o.value) == Some(o),
{
    reveal_strlit(",");
    law_sized_numbers_round_trip(0, o.code, 0);
    let a = decimal(o.code as nat);
    let b = o.value;
    let s = a + ","@ + b;
    lemma_decimal(o.code as nat);
    assert forall|j: int| 0 <= j < a.len() implies s[j] != ',' by {
        assert(is_digit(a[j]));
        assert(s[j] == a[j]);
    }
    assert(s[a.len() as int] == ',');
    lemma_find_at(s, ',', 0, a.len() as int);
    assert(s.take(a.len() as int) =~= a);
    assert(s.skip((a.len() + 1) as int) =~= b);
    assert(split_once(s, ',') == Some((a, b)));
}

proof fn lemma_dhcp_mode(s: UciSectionView, name: Seq<char>, m: NetworkDhcpMode, d: NetworkDhcpMode)
    requires
        s.get(name) == Some(seq![dhcp_mode_name(m)]),
    ensures
        dhcp_mode_value(s, name, d) == Some(m),
{
    reveal_strlit("disabled");
    assert(tag("disabled"@) == (8nat, 'd', 'i', 'd'));
    reveal_strlit("server");
    assert(tag("server"@) == (6nat, 's', 'e', 'r'));
    reveal_strlit("relay");
    assert(tag("relay"@) == (5nat, 'r', 'e', 'y'));
    reveal_strlit("hybrid");
    assert(tag("hybrid"@) == (6nat, 'h', 'y', 'd'));
}

proof fn lemma_dhcp_gets(
    selector: Seq<char>,
    id: Seq<char>,
    v: NetworkDhcpServerConfigView,
    agent_owned: bool,
)
    ensures
        ({
            let s = written(selector, dhcp_section_of(id, v, agent_owned));
            &&& s.get("interface"@) == Some(seq![id])
            &&& s.get("ignore"@) == Some(seq![flag(!v.enabled)])
            &&& s.get("start"@) == Some(seq![decimal(v.start as nat)])
            &&& s.get("limit"@) == Some(seq![decimal(v.limit as nat)])
            &&& s.get("leasetime"@) == Some(seq![v.lease_time])
            &&& s.get("force"@) == Some(seq![flag(v.force)])
            &&& s.get("dhcpv6"@) == Some(seq![dhcp_mode_name(v.dhcpv6_mode)])
            &&& s.get("ra"@) == Some(seq![dhcp_mode_name(v.ra_mode)])
            &&& s.get("ndp"@) == Some(seq![dhcp_mode_name(v.ndp_mode)])
            &&& s.values("dhcp_option"@) == dhcp_texts(v.dhcp_options)
        }),
{
    let r = dhcp_section_of(id, v, agent_owned);
    let s = written(selector, r);
    lemma_dhcp_set(id, v, agent_owned);
    reveal_strlit("interface");
    assert(tag("interface"@) == (9nat, 'i', 'n', 'e'));
    reveal_strlit("ignore");
    assert(tag("ignore"@) == (6nat, 'i', 'g', 'e'));
    reveal_strlit("start");
    assert(tag("start"@) == (5nat, 's', 't', 't'));
    reveal_strlit("limit");
    assert(tag("limit"@) == (5nat, 'l', 'i', 't'));
    reveal_strlit("leasetime");
    assert(tag("leasetime"@) == (9nat, 'l', 'e', 'e'));
    reveal_strlit("force");
    assert(tag("force"@) == (5nat, 'f', 'o', 'e'));
    reveal_strlit("dhcpv6");
    assert(tag("dhcpv6"@) == (6nat, 'd', 'h', '6'));
    reveal_strlit("ra");
    assert(tag("ra"@) == (2nat, 'r', 'a', 'a'));
    reveal_strlit("ndp");
    assert(tag("ndp"@) == (3nat, 'n', 'd', 'p'));
    reveal_strlit("dhcp_option");
    assert(tag("dhcp_option"@) == (11nat, 'd', 'h', 'n'));
    lemma_other_list(r.lists, "interface"@);
    lemma_other_list(r.lists, "ignore"@);
    lemma_other_list(r.lists, "start"@);
    lemma_other_list(r.lists, "limit"@);
    lemma_other_list(r.lists, "leasetime"@);
    lemma_other_list(r.lists, "force"@);
    lemma_other_list(r.lists, "dhcpv6"@);
    lemma_other_list(r.lists, "ra"@);
    lemma_other_list(r.lists, "ndp"@);
    lemma_only_list(r.lists);
    lemma_written_get(selector, r, "interface"@);
    lemma_written_get(selector, r, "ignore"@);
    lemma_written_get(selector, r, "start"@);
    lemma_written_get(selector, r, "limit"@);
    lemma_written_get(selector, r, "leasetime"@);
    lemma_written_get(selector, r, "force"@);
    lemma_written_get(selector, r, "dhcpv6"@);
    lemma_written_get(selector, r, "ra"@);
    lemma_written_get(selector, r, "ndp"@);
    lemma_written_get(selector, r, "dhcp_option"@);
    assert(s.values("dhcp_option"@) =~= dhcp_texts(v.dhcp_options));
}

/// A DHCP server that is written is read back as itself, for the same interface, whoever owns the
/// section.
pub proof fn law_written_dhcp_server_is_read_back(
    selector: Seq<char>,
    id: Seq<char>,
    v: NetworkDhcpServerConfigView,
    agent_owned: bool,
)
    requires
        v.dhcp_options.len() <= 16,
        forall|i: int| 0 <= i < v.dhcp_options.len() ==> is_plain_option(#[trigger] v.dhcp_options[i]),
    ensures
        ({
            let s = written(selector, dhcp_section_of(id, v, agent_owned));
            &&& s.section_type == "dhcp"@
            &&& s.scalar("interface"@) == Some(id)
            &&& dhcp_server_value(s) == Some(v)
        }),
{
    let r = dhcp_section_of(id, v, agent_owned);
    let s = written(selector, r);
    lemma_written_type(selector, r);
    lemma_dhcp_gets(selector, id, v, agent_owned);
    lemma_flag(!v.enabled);
    lemma_flag(v.force);
    law_sized_numbers_round_trip(0, v.start, 0);
    law_sized_numbers_round_trip(0, v.limit, 0);
    lemma_dhcp_mode(s, "dhcpv6"@, v.dhcpv6_mode, NetworkDhcpMode::Server);
    lemma_dhcp_mode(s, "ra"@, v.ra_mode, NetworkDhcpMode::Server);
    lemma_dhcp_mode(s, "ndp"@, v.ndp_mode, NetworkDhcpMode::Hybrid);
    let f = |t: Seq<char>| DhcpOptions::value(t);
    let t = dhcp_texts(v.dhcp_options);
    assert forall|i: int| 0 <= i < t.len() implies f(#[trigger] t[i]) == Some(v.dhcp_options[i]) by {
        assert(is_plain_option(v.dhcp_options[i]));
        lemma_dhcp_option(v.dhcp_options[i]);
    }
    lemma_map_all(t, f, v.dhcp_options);
    assert(is_scalar_dhcp(s));
    assert(dhcp_server_value(s) == Some(v));
}

} // verus!
