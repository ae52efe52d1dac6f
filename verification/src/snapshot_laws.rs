//! What an inspection finds: each object comes from the section that it is bound to.

use vstd::prelude::*;

use crate::change::ObjectOwnership;
use crate::firewall_inventory::empty_scan as empty_firewall_scan;
use crate::firewall_inventory::{
    defaults_value, firewall_binding, OpenWrtObjectBindingView, firewall_object_value, firewall_scan,
    firewall_snapshot, firewall_step, FirewallScanView, ZoneDefaults,
};
use crate::firewall_model::FirewallObjectView;
use crate::firewall_uci::{package_sections, UciSectionView};
use crate::network_decode::{dhcp_server_value, network_object_value};
use crate::network_model::{
    NetworkFamily, NetworkDhcpServerConfigView, NetworkInterfaceConfigView, NetworkObjectView,
};
use crate::network_openwrt::empty_scan as empty_network_scan;
use crate::network_openwrt::{
    binding_of, owner, verdict_at, OpenWrtNetworkObjectBindingView, bridge_ports, can_stage, dhcp_join,
    dhcp_scan, dhcp_step, interface_from, is_unambiguous, managed_value, network_scan, network_snapshot,
    network_step, rule_priorities, sections_of, NetworkScanView,
};
use crate::platform::{PlatformCapabilitiesView, PlatformKind};
use crate::text::starts;
use crate::wireless_model::WirelessObjectView;
use crate::wireless_openwrt::empty_scan as empty_wireless_scan;
use crate::wireless_openwrt::{
    radio_binding, OpenWrtWirelessObjectBindingView, radio_value, wireless_scan, wireless_sections,
    wireless_snapshot, wireless_step, WirelessScanView,
};

verus! {

/// Whether an object was read from a section of the firewall that the object model accepts.
pub open spec fn is_firewall_of(
    sections: Seq<UciSectionView>,
    defaults: Option<ZoneDefaults>,
    valid: Seq<bool>,
    j: int,
    o: FirewallObjectView,
    section: Seq<char>,
) -> bool {
    &&& 0 <= j < sections.len()
    &&& j < valid.len() && valid[j]
    &&& sections[j].selector == section
    &&& firewall_object_value(sections[j], defaults) == Some(o)
}

/// Whether an object was read from some section.
#[verifier::opaque]
spec fn is_in_firewall(
    sections: Seq<UciSectionView>,
    defaults: Option<ZoneDefaults>,
    valid: Seq<bool>,
    o: FirewallObjectView,
    section: Seq<char>,
) -> bool {
    exists|j: int| is_firewall_of(sections, defaults, valid, j, o, section)
}

/// Whether each object was read from the section that its binding names.
spec fn are_firewall_of(
    state: FirewallScanView,
    sections: Seq<UciSectionView>,
    defaults: Option<ZoneDefaults>,
    valid: Seq<bool>,
) -> bool {
    state.objects.len() == state.bindings.len() && forall|k: int|
        0 <= k < state.objects.len() ==> is_in_firewall(
            sections,
            defaults,
            valid,
            #[trigger] state.objects[k],
            state.bindings[k].section,
        )
}

/// A step keeps what was found, and adds at most the object of its section.
#[verifier::rlimit(60)]
proof fn lemma_firewall_step(state: FirewallScanView, s: UciSectionView, defaults: Option<ZoneDefaults>, valid: bool)
    requires
        firewall_step(state, s, defaults, valid) is Ok,
    ensures
        ({
            let next = firewall_step(state, s, defaults, valid)->Ok_0;
            let o = firewall_object_value(s, defaults);
            ||| next.objects == state.objects && next.bindings == state.bindings
            ||| {
                &&& valid && o is Some
                &&& next.objects == state.objects.push(o->Some_0)
                &&& next.bindings == state.bindings.push(firewall_binding(s, o->Some_0))
            }
        }),
{
}

proof fn lemma_firewall_found(
    state: FirewallScanView,
    next: FirewallScanView,
    sections: Seq<UciSectionView>,
    defaults: Option<ZoneDefaults>,
    valid: Seq<bool>,
    i: int,
    o: FirewallObjectView,
    b: OpenWrtObjectBindingView,
)
    requires
        are_firewall_of(state, sections, defaults, valid),
        is_firewall_of(sections, defaults, valid, i, o, b.section),
        next.objects == state.objects.push(o),
        next.bindings == state.bindings.push(b),
    ensures
        are_firewall_of(next, sections, defaults, valid),
{
    reveal(is_in_firewall);
    assert(is_in_firewall(sections, defaults, valid, o, b.section));
    assert forall|k: int| 0 <= k < next.objects.len() implies is_in_firewall(
        sections,
        defaults,
        valid,
        #[trigger] next.objects[k],
        next.bindings[k].section,
    ) by {
        if k < state.objects.len() {
            assert(next.objects[k] == state.objects[k]);
            assert(next.bindings[k] == state.bindings[k]);
        }
    }
}

#[verifier::rlimit(60)]
proof fn lemma_firewall_scan(
    state: FirewallScanView,
    sections: Seq<UciSectionView>,
    defaults: Option<ZoneDefaults>,
    valid: Seq<bool>,
    i: int,
)
    requires
        0 <= i <= sections.len(),
        are_firewall_of(state, sections, defaults, valid),
        firewall_scan(state, sections, defaults, valid, i) is Ok,
    ensures
        are_firewall_of(firewall_scan(state, sections, defaults, valid, i)->Ok_0, sections, defaults, valid),
    decreases sections.len() - i,
{
    if i < sections.len() {
        let s = sections[i];
        let v = verdict_at(valid, i);
        let next = firewall_step(state, s, defaults, v)->Ok_0;
        lemma_firewall_step(state, s, defaults, v);
        if next.objects != state.objects || next.bindings != state.bindings {
            let o = firewall_object_value(s, defaults)->Some_0;
            lemma_firewall_found(state, next, sections, defaults, valid, i, o, firewall_binding(s, o));
        }
        lemma_firewall_scan(next, sections, defaults, valid, i + 1);
    }
}

/// Each object of an inspected firewall is the one that its section says, with the general verdicts of the package, and
/// the object model accepts it.
pub proof fn law_firewall_objects_are_read_from_their_sections(text: Seq<char>, valid: Seq<bool>, k: int)
    requires
        firewall_snapshot(text, valid) is Ok,
        0 <= k < firewall_snapshot(text, valid)->Ok_0.inventory.objects.len(),
    ensures
        ({
            let sections = package_sections(text, "firewall"@, false)->Ok_0;
            let snapshot = firewall_snapshot(text, valid)->Ok_0;
            &&& package_sections(text, "firewall"@, false) is Ok
            &&& defaults_value(sections) is Ok
            &&& snapshot.bindings.len() == snapshot.inventory.objects.len()
            &&& exists|j: int|
                is_firewall_of(
                    sections,
                    defaults_value(sections)->Ok_0,
                    valid,
                    j,
                    snapshot.inventory.objects[k],
                    snapshot.bindings[k].section,
                )
        }),
{
    let sections = package_sections(text, "firewall"@, false)->Ok_0;
    let defaults = defaults_value(sections)->Ok_0;
    lemma_firewall_scan(empty_firewall_scan(), sections, defaults, valid, 0);
    let s = firewall_scan(empty_firewall_scan(), sections, defaults, valid, 0)->Ok_0;
    assert(is_in_firewall(sections, defaults, valid, s.objects[k], s.bindings[k].section));
    reveal(is_in_firewall);
}

/// The owner of a section of the network: the agent where it carries the agent's mark.
pub open spec fn owner_of(s: UciSectionView) -> ObjectOwnership {
    if s.first("mbed_managed"@) == Some("1"@) {
        ObjectOwnership::AgentOwned
    } else {
        ObjectOwnership::PlatformNative
    }
}

/// An object without what gives out addresses.
pub open spec fn without_server(o: NetworkObjectView) -> NetworkObjectView {
    match o {
        NetworkObjectView::Interface(x) => NetworkObjectView::Interface(
            NetworkInterfaceConfigView { dhcp_server: None, ..x },
        ),
        _ => o,
    }
}

/// Whether an object was read from a section of the network that the object model accepts.
pub open spec fn is_network_of(
    sections: Seq<UciSectionView>,
    valid: Seq<bool>,
    j: int,
    o: NetworkObjectView,
    section: Seq<char>,
) -> bool {
    &&& 0 <= j < sections.len()
    &&& j < valid.len() && valid[j]
    &&& sections[j].selector == section
    &&& starts(sections[j].selector, "mbed_"@) ==> sections[j].first("mbed_managed"@) == Some("1"@)
    &&& network_object_value(sections[j], owner_of(sections[j])) == Some(o)
}

/// Whether an object was read from some section.
#[verifier::opaque]
spec fn is_in_network(
    sections: Seq<UciSectionView>,
    valid: Seq<bool>,
    o: NetworkObjectView,
    section: Seq<char>,
) -> bool {
    exists|j: int| is_network_of(sections, valid, j, o, section)
}

/// Whether each object was read from the section that its binding names.
spec fn are_network_of(state: NetworkScanView, sections: Seq<UciSectionView>, valid: Seq<bool>) -> bool {
    state.objects.len() == state.bindings.len() && forall|k: int|
        0 <= k < state.objects.len() ==> is_in_network(
            sections,
            valid,
            without_server(#[trigger] state.objects[k]),
            state.bindings[k].section,
        )
}

proof fn lemma_serverless(s: UciSectionView, ownership: ObjectOwnership)
    ensures
        network_object_value(s, ownership) matches Some(o) ==> without_server(o) == o,
{
    if let Some(NetworkObjectView::Interface(x)) = network_object_value(s, ownership) {
        assert(x.dhcp_server is None);
    }
}

/// A step keeps what was found, and adds at most the object of its section.
#[verifier::rlimit(60)]
proof fn lemma_network_step(state: NetworkScanView, s: UciSectionView, valid: bool)
    requires
        network_step(state, s, valid) is Ok,
    ensures
        ({
            let next = network_step(state, s, valid)->Ok_0;
            let o = network_object_value(s, owner_of(s));
            ||| next.objects == state.objects && next.bindings == state.bindings
            ||| {
                &&& valid && o is Some
                &&& starts(s.selector, "mbed_"@) ==> s.first("mbed_managed"@) == Some("1"@)
                &&& next.objects == state.objects.push(o->Some_0)
                &&& next.bindings == state.bindings.push(binding_of(s, o->Some_0))
            }
        }),
{
    reveal(network_step);
    let managed = managed_value(s)->Some_0;
    assert(managed_value(s) is Some);
    assert(managed <==> s.first("mbed_managed"@) == Some("1"@));
    assert(owner(managed) == owner_of(s));
    assert(starts(s.selector, "mbed_"@) ==> managed);
}

proof fn lemma_network_found(
    state: NetworkScanView,
    next: NetworkScanView,
    sections: Seq<UciSectionView>,
    valid: Seq<bool>,
    i: int,
    o: NetworkObjectView,
    b: OpenWrtNetworkObjectBindingView,
)
    requires
        are_network_of(state, sections, valid),
        is_network_of(sections, valid, i, o, b.section),
        without_server(o) == o,
        next.objects == state.objects.push(o),
        next.bindings == state.bindings.push(b),
    ensures
        are_network_of(next, sections, valid),
{
    reveal(is_in_network);
    assert(is_in_network(sections, valid, o, b.section));
    assert forall|k: int| 0 <= k < next.objects.len() implies is_in_network(
        sections,
        valid,
        without_server(#[trigger] next.objects[k]),
        next.bindings[k].section,
    ) by {
        if k < state.objects.len() {
            assert(next.objects[k] == state.objects[k]);
            assert(next.bindings[k] == state.bindings[k]);
        }
    }
}

#[verifier::rlimit(60)]
proof fn lemma_network_scan(state: NetworkScanView, sections: Seq<UciSectionView>, valid: Seq<bool>, i: int)
    requires
        0 <= i <= sections.len(),
        are_network_of(state, sections, valid),
        forall|k: int| 0 <= k < state.objects.len() ==> without_server(#[trigger] state.objects[k]) == state.objects[k],
        network_scan(state, sections, valid, i) is Ok,
    ensures
        ({
            let r = network_scan(state, sections, valid, i)->Ok_0;
            &&& are_network_of(r, sections, valid)
            &&& forall|k: int| 0 <= k < r.objects.len() ==> without_server(#[trigger] r.objects[k]) == r.objects[k]
        }),
    decreases sections.len() - i,
{
    if i < sections.len() {
        let s = sections[i];
        let v = verdict_at(valid, i);
        let next = network_step(state, s, v)->Ok_0;
        lemma_network_step(state, s, v);
        lemma_serverless(s, owner_of(s));
        if next.objects != state.objects || next.bindings != state.bindings {
            let o = network_object_value(s, owner_of(s))->Some_0;
            lemma_network_found(state, next, sections, valid, i, o, binding_of(s, o));
        }
        lemma_network_scan(next, sections, valid, i + 1);
    }
}

/// Whether a section gives an interface what gives out addresses.
pub open spec fn is_server_of(
    sections: Seq<UciSectionView>,
    valid: Seq<bool>,
    j: int,
    id: Seq<char>,
    server: NetworkDhcpServerConfigView,
) -> bool {
    &&& 0 <= j < sections.len()
    &&& j < valid.len() && valid[j]
    &&& sections[j].section_type == "dhcp"@
    &&& sections[j].scalar("interface"@) == Some(id)
    &&& dhcp_server_value(sections[j]) == Some(server)
}

/// Whether what gives out addresses comes from sections that name the interface.
pub open spec fn are_served(objects: Seq<NetworkObjectView>, sections: Seq<UciSectionView>, valid: Seq<bool>) -> bool {
    forall|k: int|
        0 <= k < objects.len() && (#[trigger] objects[k]) is Interface && objects[k]->Interface_0.dhcp_server is Some
            ==> exists|j: int|
            is_server_of(
                sections,
                valid,
                j,
                objects[k]->Interface_0.id,
                objects[k]->Interface_0.dhcp_server->Some_0,
            )
}

proof fn lemma_interface(objects: Seq<NetworkObjectView>, id: Seq<char>, i: int)
    requires
        0 <= i <= objects.len(),
    ensures
        ({
            let k = interface_from(objects, id, i);
            &&& i <= k <= objects.len()
            &&& k < objects.len() ==> objects[k] is Interface && objects[k].id() == id
            &&& forall|j: int| i <= j < k ==> !((#[trigger] objects[j]) is Interface && objects[j].id() == id)
        }),
    decreases objects.len() - i,
{
    if i < objects.len() && !(objects[i] is Interface && objects[i].id() == id) {
        lemma_interface(objects, id, i + 1);
    }
}

proof fn lemma_dhcp_step(state: NetworkScanView, sections: Seq<UciSectionView>, valid: Seq<bool>, i: int)
    requires
        0 <= i < sections.len(),
        are_served(state.objects, sections, valid),
        dhcp_step(state, sections[i], verdict_at(valid, i)) is Ok,
    ensures
        ({
            let next = dhcp_step(state, sections[i], verdict_at(valid, i))->Ok_0;
            &&& are_served(next.objects, sections, valid)
            &&& next.objects.len() == state.objects.len()
            &&& next.bindings.len() == state.bindings.len()
            &&& forall|k: int|
                0 <= k < next.objects.len() ==> without_server(#[trigger] next.objects[k]) == without_server(
                    state.objects[k],
                )
            &&& forall|k: int|
                0 <= k < next.bindings.len() ==> (#[trigger] next.bindings[k]).section == state.bindings[k].section
        }),
{
    let s = sections[i];
    let v = verdict_at(valid, i);
    let next = dhcp_step(state, s, v)->Ok_0;
    if let Some((at, server)) = dhcp_join(state.objects, s) {
        let id = s.scalar("interface"@)->Some_0;
        lemma_interface(state.objects, id, 0);
        assert forall|k: int|
            0 <= k < next.objects.len() && (#[trigger] next.objects[k]) is Interface
                && next.objects[k]->Interface_0.dhcp_server is Some implies exists|j: int|
            is_server_of(
                sections,
                valid,
                j,
                next.objects[k]->Interface_0.id,
                next.objects[k]->Interface_0.dhcp_server->Some_0,
            ) by {
            if k == at {
                if v {
                    assert(is_server_of(sections, valid, i, next.objects[k]->Interface_0.id, server));
                }
            } else {
                assert(next.objects[k] == state.objects[k]);
            }
        }
        assert forall|k: int| 0 <= k < next.objects.len() implies without_server(#[trigger] next.objects[k])
            == without_server(state.objects[k]) by {
            if k != at {
                assert(next.objects[k] == state.objects[k]);
            }
        }
    }
}

proof fn lemma_dhcp_scan(state: NetworkScanView, sections: Seq<UciSectionView>, valid: Seq<bool>, i: int)
    requires
        0 <= i <= sections.len(),
        are_served(state.objects, sections, valid),
        dhcp_scan(state, sections, valid, i) is Ok,
    ensures
        ({
            let r = dhcp_scan(state, sections, valid, i)->Ok_0;
            &&& are_served(r.objects, sections, valid)
            &&& r.objects.len() == state.objects.len()
            &&& r.bindings.len() == state.bindings.len()
            &&& forall|k: int|
                0 <= k < r.objects.len() ==> without_server(#[trigger] r.objects[k]) == without_server(
                    state.objects[k],
                )
            &&& forall|k: int|
                0 <= k < r.bindings.len() ==> (#[trigger] r.bindings[k]).section == state.bindings[k].section
        }),
    decreases sections.len() - i,
{
    if i < sections.len() {
        let next = dhcp_step(state, sections[i], verdict_at(valid, i))->Ok_0;
        lemma_dhcp_step(state, sections, valid, i);
        lemma_dhcp_scan(next, sections, valid, i + 1);
        let r = dhcp_scan(state, sections, valid, i)->Ok_0;
        assert forall|k: int| 0 <= k < r.objects.len() implies without_server(#[trigger] r.objects[k])
            == without_server(state.objects[k]) by {
            assert(without_server(r.objects[k]) == without_server(next.objects[k]));
        }
        assert forall|k: int| 0 <= k < r.bindings.len() implies (#[trigger] r.bindings[k]).section
            == state.bindings[k].section by {
            assert(r.bindings[k].section == next.bindings[k].section);
        }
    }
}

/// Each object of an inspected network is the one that its section says and is owned by whom the section is marked for.
/// What gives out addresses on an interface comes from a section of the other package that names the interface.
pub proof fn law_network_objects_are_read_from_their_sections(
    text: Seq<char>,
    dhcp_text: Seq<char>,
    valid: Seq<bool>,
    dhcp_valid: Seq<bool>,
    k: int,
)
    requires
        network_snapshot(text, dhcp_text, valid, dhcp_valid) is Ok,
        0 <= k < network_snapshot(text, dhcp_text, valid, dhcp_valid)->Ok_0.inventory.objects.len(),
    ensures
        ({
            let sections = sections_of(text, "network"@)->Ok_0;
            let servers = sections_of(dhcp_text, "dhcp"@)->Ok_0;
            let snapshot = network_snapshot(text, dhcp_text, valid, dhcp_valid)->Ok_0;
            let o = snapshot.inventory.objects[k];
            &&& sections_of(text, "network"@) is Ok && sections_of(dhcp_text, "dhcp"@) is Ok
            &&& snapshot.bindings.len() == snapshot.inventory.objects.len()
            &&& exists|j: int| is_network_of(sections, valid, j, without_server(o), snapshot.bindings[k].section)
            &&& o is Interface && o->Interface_0.dhcp_server is Some ==> exists|j: int|
                is_server_of(
                    servers,
                    dhcp_valid,
                    j,
                    o->Interface_0.id,
                    o->Interface_0.dhcp_server->Some_0,
                )
        }),
{
    let sections = sections_of(text, "network"@)->Ok_0;
    let servers = sections_of(dhcp_text, "dhcp"@)->Ok_0;
    let start = empty_network_scan();
    lemma_network_scan(start, sections, valid, 0);
    let first = network_scan(start, sections, valid, 0)->Ok_0;
    let middle = NetworkScanView { occupied: Seq::empty(), read_only: Seq::empty(), ..first };
    assert forall|k: int| 0 <= k < middle.objects.len() && (#[trigger] middle.objects[k]) is Interface implies
        middle.objects[k]->Interface_0.dhcp_server is None by {
        assert(without_server(first.objects[k]) == first.objects[k]);
    }
    lemma_dhcp_scan(middle, servers, dhcp_valid, 0);
    let second = dhcp_scan(middle, servers, dhcp_valid, 0)->Ok_0;
    assert(second.objects == network_snapshot(text, dhcp_text, valid, dhcp_valid)->Ok_0.inventory.objects);
    assert(without_server(second.objects[k]) == without_server(first.objects[k]));
    assert(second.bindings[k].section == first.bindings[k].section);
    assert(is_in_network(sections, valid, without_server(first.objects[k]), first.bindings[k].section));
    reveal(is_in_network);
}

proof fn lemma_server_stays(
    state: NetworkScanView,
    sections: Seq<UciSectionView>,
    valid: Seq<bool>,
    i: int,
    id: Seq<char>,
)
    requires
        0 <= i <= sections.len(),
        interface_from(state.objects, id, 0) < state.objects.len(),
        forall|j: int| i <= j < sections.len() ==> (#[trigger] sections[j]).scalar("interface"@) != Some(id),
        dhcp_scan(state, sections, valid, i) is Ok,
    ensures
        ({
            let at = interface_from(state.objects, id, 0);
            dhcp_scan(state, sections, valid, i)->Ok_0.objects[at] == state.objects[at]
        }),
    decreases sections.len() - i,
{
    if i < sections.len() {
        let s = sections[i];
        let next = dhcp_step(state, s, verdict_at(valid, i))->Ok_0;
        let at = interface_from(state.objects, id, 0);
        lemma_interface(state.objects, id, 0);
        if let Some((other, server)) = dhcp_join(state.objects, s) {
            lemma_interface(state.objects, s.scalar("interface"@)->Some_0, 0);
            assert(other != at);
        }
        assert(next.objects[at] == state.objects[at]);
        lemma_interface(next.objects, id, 0);
        let found = interface_from(next.objects, id, 0);
        assert forall|j: int| 0 <= j < at implies !((#[trigger] next.objects[j]) is Interface && next.objects[j].id()
            == id) by {
            assert(!(state.objects[j] is Interface && state.objects[j].id() == id));
        }
        assert(found == at);
        lemma_server_stays(next, sections, valid, i + 1, id);
    }
}

/// A section that gives out addresses, that the object model accepts and behind which none names the same interface,
/// sets what the interface has.
pub proof fn law_last_server_section_counts(
    state: NetworkScanView,
    sections: Seq<UciSectionView>,
    valid: Seq<bool>,
    i: int,
    id: Seq<char>,
    server: NetworkDhcpServerConfigView,
)
    requires
        is_server_of(sections, valid, i, id, server),
        forall|j: int| i < j < sections.len() ==> (#[trigger] sections[j]).scalar("interface"@) != Some(id),
        interface_from(state.objects, id, 0) < state.objects.len(),
        dhcp_scan(state, sections, valid, i) is Ok,
    ensures
        ({
            let at = interface_from(state.objects, id, 0);
            let o = dhcp_scan(state, sections, valid, i)->Ok_0.objects[at];
            o is Interface && o->Interface_0.id == id && o->Interface_0.dhcp_server == Some(server)
        }),
{
    let s = sections[i];
    let next = dhcp_step(state, s, true)->Ok_0;
    let at = interface_from(state.objects, id, 0);
    lemma_interface(state.objects, id, 0);
    lemma_interface(next.objects, id, 0);
    let found = interface_from(next.objects, id, 0);
    assert forall|j: int| 0 <= j < at implies !((#[trigger] next.objects[j]) is Interface && next.objects[j].id()
        == id) by {
        assert(!(state.objects[j] is Interface && state.objects[j].id() == id));
    }
    assert(next.objects[at] is Interface && next.objects[at].id() == id);
    assert(found == at);
    lemma_server_stays(next, sections, valid, i + 1, id);
}

/// Whether an object was read from a section of the wireless package that the object model accepts.
pub open spec fn is_radio_of(
    sections: Seq<UciSectionView>,
    valid: Seq<bool>,
    j: int,
    o: WirelessObjectView,
    section: Seq<char>,
) -> bool {
    &&& 0 <= j < sections.len()
    &&& j < valid.len() && valid[j]
    &&& sections[j].selector == section
    &&& sections[j].section_type == "wifi-device"@
    &&& !starts(sections[j].selector, "mbed_"@)
    &&& !sections[j].has("mbed_managed"@)
    &&& radio_value(sections[j]) matches Some(d) && o == WirelessObjectView::Radio(d.radio)
}

/// Whether a radio was read from some section.
#[verifier::opaque]
spec fn is_in_wireless(
    sections: Seq<UciSectionView>,
    valid: Seq<bool>,
    o: WirelessObjectView,
    section: Seq<char>,
) -> bool {
    exists|j: int| is_radio_of(sections, valid, j, o, section)
}

/// Whether each radio was read from the section that its binding names.
spec fn are_radios_of(state: WirelessScanView, sections: Seq<UciSectionView>, valid: Seq<bool>) -> bool {
    state.objects.len() == state.bindings.len() && forall|k: int|
        0 <= k < state.objects.len() ==> is_in_wireless(
            sections,
            valid,
            #[trigger] state.objects[k],
            state.bindings[k].section,
        )
}

/// A step keeps what was found, and adds at most the radio of its section.
#[verifier::rlimit(60)]
proof fn lemma_wireless_step(state: WirelessScanView, s: UciSectionView, valid: bool)
    requires
        wireless_step(state, s, valid) is Ok,
    ensures
        ({
            let next = wireless_step(state, s, valid)->Ok_0;
            let d = radio_value(s);
            ||| next.objects == state.objects && next.bindings == state.bindings
            ||| {
                &&& valid && d is Some
                &&& s.section_type == "wifi-device"@
                &&& !starts(s.selector, "mbed_"@) && !s.has("mbed_managed"@)
                &&& next.objects == state.objects.push(WirelessObjectView::Radio(d->Some_0.radio))
                &&& next.bindings == state.bindings.push(radio_binding(s, d->Some_0))
            }
        }),
{
}

proof fn lemma_radio_found(
    state: WirelessScanView,
    next: WirelessScanView,
    sections: Seq<UciSectionView>,
    valid: Seq<bool>,
    i: int,
    o: WirelessObjectView,
    b: OpenWrtWirelessObjectBindingView,
)
    requires
        are_radios_of(state, sections, valid),
        is_radio_of(sections, valid, i, o, b.section),
        next.objects == state.objects.push(o),
        next.bindings == state.bindings.push(b),
    ensures
        are_radios_of(next, sections, valid),
{
    reveal(is_in_wireless);
    assert(is_in_wireless(sections, valid, o, b.section));
    assert forall|k: int| 0 <= k < next.objects.len() implies is_in_wireless(
        sections,
        valid,
        #[trigger] next.objects[k],
        next.bindings[k].section,
    ) by {
        if k < state.objects.len() {
            assert(next.objects[k] == state.objects[k]);
            assert(next.bindings[k] == state.bindings[k]);
        }
    }
}

#[verifier::rlimit(60)]
proof fn lemma_wireless_scan(state: WirelessScanView, sections: Seq<UciSectionView>, valid: Seq<bool>, i: int)
    requires
        0 <= i <= sections.len(),
        are_radios_of(state, sections, valid),
        wireless_scan(state, sections, valid, i) is Ok,
    ensures
        are_radios_of(wireless_scan(state, sections, valid, i)->Ok_0, sections, valid),
    decreases sections.len() - i,
{
    if i < sections.len() {
        let s = sections[i];
        let v = verdict_at(valid, i);
        let next = wireless_step(state, s, v)->Ok_0;
        lemma_wireless_step(state, s, v);
        if next.objects != state.objects || next.bindings != state.bindings {
            let d = radio_value(s)->Some_0;
            lemma_radio_found(
                state,
                next,
                sections,
                valid,
                i,
                WirelessObjectView::Radio(d.radio),
                radio_binding(s, d),
            );
        }
        lemma_wireless_scan(next, sections, valid, i + 1);
    }
}

/// Each radio of an inspected wireless package is the one that its section says, and no section of the agent's is taken
/// for a radio.
pub proof fn law_radios_are_read_from_their_sections(text: Seq<char>, valid: Seq<bool>, k: int)
    requires
        wireless_snapshot(text, valid) is Ok,
        0 <= k < wireless_snapshot(text, valid)->Ok_0.inventory.objects.len(),
    ensures
        ({
            let snapshot = wireless_snapshot(text, valid)->Ok_0;
            &&& wireless_sections(text) is Ok
            &&& snapshot.bindings.len() == snapshot.inventory.objects.len()
            &&& exists|j: int|
                is_radio_of(
                    wireless_sections(text)->Ok_0,
                    valid,
                    j,
                    snapshot.inventory.objects[k],
                    snapshot.bindings[k].section,
                )
        }),
{
    let sections = wireless_sections(text)->Ok_0;
    lemma_wireless_scan(empty_wireless_scan(), sections, valid, 0);
    let s = wireless_scan(empty_wireless_scan(), sections, valid, 0)->Ok_0;
    assert(is_in_wireless(sections, valid, s.objects[k], s.bindings[k].section));
    reveal(is_in_wireless);
}

proof fn lemma_port_is_new(acc: Seq<Seq<char>>, objects: Seq<NetworkObjectView>, i: int, k: int, port: Seq<char>)
    requires
        0 <= i <= k < objects.len(),
        bridge_ports(acc, objects, i).no_duplicates(),
        objects[k] is Bridge,
        objects[k]->Bridge_0.ports.contains(port),
    ensures
        !acc.contains(port),
    decreases k - i,
{
    if i == k {
        let ports = objects[k]->Bridge_0.ports;
        lemma_ports_start(acc + ports, objects, i + 1);
        if acc.contains(port) {
            let x = choose|x: int| 0 <= x < acc.len() && acc[x] == port;
            let y = choose|y: int| 0 <= y < ports.len() && ports[y] == port;
            assert((acc + ports)[x] == (acc + ports)[acc.len() + y]);
        }
    } else if let NetworkObjectView::Bridge(b) = objects[i] {
        lemma_port_is_new(acc + b.ports, objects, i + 1, k, port);
        if acc.contains(port) {
            let x = choose|x: int| 0 <= x < acc.len() && acc[x] == port;
            assert((acc + b.ports)[x] == port);
        }
    } else {
        lemma_port_is_new(acc, objects, i + 1, k, port);
    }
}

proof fn lemma_ports_start(acc: Seq<Seq<char>>, objects: Seq<NetworkObjectView>, i: int)
    requires
        0 <= i <= objects.len(),
        bridge_ports(acc, objects, i).no_duplicates(),
    ensures
        acc.no_duplicates(),
    decreases objects.len() - i,
{
    if i < objects.len() {
        if let NetworkObjectView::Bridge(b) = objects[i] {
            lemma_ports_start(acc + b.ports, objects, i + 1);
            assert forall|x: int, y: int| 0 <= x < acc.len() && 0 <= y < acc.len() && x != y implies acc[x] != acc[y] by {
                assert((acc + b.ports)[x] == acc[x]);
                assert((acc + b.ports)[y] == acc[y]);
            }
        } else {
            lemma_ports_start(acc, objects, i + 1);
        }
    }
}

proof fn lemma_two_bridges(acc: Seq<Seq<char>>, objects: Seq<NetworkObjectView>, i: int, j: int, k: int, port: Seq<char>)
    requires
        0 <= i <= j < k < objects.len(),
        bridge_ports(acc, objects, i).no_duplicates(),
        objects[j] is Bridge,
        objects[k] is Bridge,
        objects[j]->Bridge_0.ports.contains(port),
    ensures
        !objects[k]->Bridge_0.ports.contains(port),
    decreases j - i,
{
    if i == j {
        let ports = objects[j]->Bridge_0.ports;
        if objects[k]->Bridge_0.ports.contains(port) {
            lemma_port_is_new(acc + ports, objects, i + 1, k, port);
        }
        let y = choose|y: int| 0 <= y < ports.len() && ports[y] == port;
        assert((acc + ports)[acc.len() + y] == port);
    } else if let NetworkObjectView::Bridge(b) = objects[i] {
        lemma_two_bridges(acc + b.ports, objects, i + 1, j, k, port);
    } else {
        lemma_two_bridges(acc, objects, i + 1, j, k, port);
    }
}

proof fn lemma_priority_is_new(
    acc: Seq<(NetworkFamily, u32)>,
    objects: Seq<NetworkObjectView>,
    i: int,
    x: int,
)
    requires
        0 <= i <= objects.len(),
        0 <= x < acc.len(),
        rule_priorities(acc, objects, i).no_duplicates(),
    ensures
        acc.no_duplicates(),
        forall|k: int|
            i <= k < objects.len() && (#[trigger] objects[k]) is PolicyRule && objects[k]->PolicyRule_0.enabled
                ==> acc[x] != (objects[k]->PolicyRule_0.family, objects[k]->PolicyRule_0.priority),
    decreases objects.len() - i,
{
    if i < objects.len() {
        match objects[i] {
            NetworkObjectView::PolicyRule(p) if p.enabled => {
                let next = acc.push((p.family, p.priority));
                lemma_priority_is_new(next, objects, i + 1, x);
                assert(next[x] == acc[x]);
                assert(next[acc.len() as int] == (p.family, p.priority));
                assert forall|a: int, b: int| 0 <= a < acc.len() && 0 <= b < acc.len() && a != b implies acc[a]
                    != acc[b] by {
                    assert(next[a] == acc[a]);
                    assert(next[b] == acc[b]);
                }
            },
            _ => {
                lemma_priority_is_new(acc, objects, i + 1, x);
            },
        }
    }
}

proof fn lemma_two_rules(acc: Seq<(NetworkFamily, u32)>, objects: Seq<NetworkObjectView>, i: int, j: int, k: int)
    requires
        0 <= i <= j < k < objects.len(),
        rule_priorities(acc, objects, i).no_duplicates(),
        objects[j] is PolicyRule && objects[j]->PolicyRule_0.enabled,
        objects[k] is PolicyRule && objects[k]->PolicyRule_0.enabled,
    ensures
        objects[j]->PolicyRule_0.family != objects[k]->PolicyRule_0.family || objects[j]->PolicyRule_0.priority
            != objects[k]->PolicyRule_0.priority,
    decreases j - i,
{
    match objects[i] {
        NetworkObjectView::PolicyRule(p) if p.enabled => {
            let next = acc.push((p.family, p.priority));
            if i == j {
                lemma_priority_is_new(next, objects, i + 1, acc.len() as int);
            } else {
                lemma_two_rules(next, objects, i + 1, j, k);
            }
        },
        _ => {
            lemma_two_rules(acc, objects, i + 1, j, k);
        },
    }
}

/// In an unambiguous network no port is in two bridges, and no two enabled rules of one family have one priority.
pub proof fn law_ports_and_priorities_are_used_once(objects: Seq<NetworkObjectView>, j: int, k: int, port: Seq<char>)
    requires
        is_unambiguous(objects),
        0 <= j < k < objects.len(),
    ensures
        objects[j] is Bridge && objects[k] is Bridge ==> !(objects[j]->Bridge_0.ports.contains(port)
            && objects[k]->Bridge_0.ports.contains(port)),
        objects[j] is PolicyRule && objects[k] is PolicyRule && objects[j]->PolicyRule_0.enabled
            && objects[k]->PolicyRule_0.enabled && objects[j]->PolicyRule_0.family == objects[k]->PolicyRule_0.family
            ==> objects[j]->PolicyRule_0.priority != objects[k]->PolicyRule_0.priority,
{
    if objects[j] is Bridge && objects[k] is Bridge && objects[j]->Bridge_0.ports.contains(port) {
        lemma_two_bridges(Seq::empty(), objects, 0, j, k, port);
    }
    if objects[j] is PolicyRule && objects[k] is PolicyRule && objects[j]->PolicyRule_0.enabled
        && objects[k]->PolicyRule_0.enabled {
        lemma_two_rules(Seq::empty(), objects, 0, j, k);
    }
}

/// An inspected network is unambiguous.
pub proof fn law_inspected_network_is_unambiguous(
    text: Seq<char>,
    dhcp_text: Seq<char>,
    valid: Seq<bool>,
    dhcp_valid: Seq<bool>,
)
    requires
        network_snapshot(text, dhcp_text, valid, dhcp_valid) is Ok,
    ensures
        is_unambiguous(network_snapshot(text, dhcp_text, valid, dhcp_valid)->Ok_0.inventory.objects),
{
}

/// Changes are staged only on OpenWrt, in a supported release and with its configuration tool.
pub proof fn law_staging_needs_the_configuration_tool(c: PlatformCapabilitiesView)
    ensures
        can_stage(c) ==> c.kind == PlatformKind::OpenWrt && c.release_supported && c.has_uci,
        c.kind == PlatformKind::OpenWrt && c.release_supported && c.has_uci && c.available_commands.contains("uci"@)
            ==> can_stage(c),
{
}

} // verus!
