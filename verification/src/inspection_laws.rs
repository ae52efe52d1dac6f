//! What holds of every inspection of a package.

use vstd::prelude::*;

use crate::firewall_inventory::{
    defaults_value, empty_scan, firewall_scan, firewall_snapshot, firewall_step, is_managed, selectors,
    FirewallScanView, OpenWrtObjectBindingView, ZoneDefaults,
};
use crate::firewall_model::FirewallObjectView;
use crate::firewall_uci::{package_sections, UciSectionView};
use crate::network_decode::network_object_value;
use crate::network_model::NetworkObjectView;
use crate::network_openwrt::{
    binding_of, dhcp_scan, dhcp_step, interface_from, managed_value, network_scan, network_snapshot, network_step,
    owner, sections_of, verdict_at, NetworkScanView, OpenWrtNetworkObjectBindingView,
};
use crate::wireless_model::WirelessObjectView;
use crate::wireless_openwrt::{
    wireless_scan, wireless_sections, wireless_snapshot, wireless_step, OpenWrtWirelessObjectBindingView,
    WirelessScanView,
};

verus! {

/// Whether a section is the one that some object was found in.
pub open spec fn firewall_bound(bindings: Seq<OpenWrtObjectBindingView>, section: Seq<char>) -> bool {
    exists|k: int| 0 <= k < bindings.len() && (#[trigger] bindings[k]).section == section
}

/// Whether each object has the binding of its index.
pub open spec fn firewall_paired(
    objects: Seq<FirewallObjectView>,
    bindings: Seq<OpenWrtObjectBindingView>,
) -> bool {
    objects.len() == bindings.len() && forall|k: int|
        0 <= k < objects.len() ==> (#[trigger] bindings[k]).kind == objects[k].kind()
            && bindings[k].id == objects[k].id()
}

proof fn lemma_firewall_scan(
    state: FirewallScanView,
    sections: Seq<UciSectionView>,
    defaults: Option<ZoneDefaults>,
    valid: Seq<bool>,
    i: int,
)
    requires
        0 <= i <= sections.len(),
        firewall_scan(state, sections, defaults, valid, i) is Ok,
        firewall_paired(state.objects, state.bindings),
    ensures
        ({
            let end = firewall_scan(state, sections, defaults, valid, i)->Ok_0;
            &&& state.bindings.len() <= end.bindings.len()
            &&& forall|k: int|
                0 <= k < state.bindings.len() ==> #[trigger] end.bindings[k] == state.bindings[k]
            &&& state.read_only.len() <= end.read_only.len()
            &&& forall|k: int|
                0 <= k < state.read_only.len() ==> #[trigger] end.read_only[k] == state.read_only[k]
            &&& firewall_paired(end.objects, end.bindings)
            &&& forall|j: int|
                i <= j < sections.len() && (#[trigger] sections[j]).section_type != "defaults"@
                    ==> firewall_bound(end.bindings, sections[j].selector) || (!is_managed(
                    sections[j],
                ) && end.read_only.contains(sections[j].selector))
        }),
    decreases sections.len() - i,
{
    if i < sections.len() {
        let s = sections[i];
        let next = firewall_step(state, s, defaults, verdict_at(valid, i))->Ok_0;
        lemma_firewall_scan(next, sections, defaults, valid, i + 1);
        let end = firewall_scan(state, sections, defaults, valid, i)->Ok_0;
        assert forall|k: int| 0 <= k < state.bindings.len() implies #[trigger] end.bindings[k]
            == state.bindings[k] by {
            assert(next.bindings[k] == state.bindings[k]);
        }
        assert forall|k: int| 0 <= k < state.read_only.len() implies #[trigger] end.read_only[k]
            == state.read_only[k] by {
            assert(next.read_only[k] == state.read_only[k]);
        }
        if s.section_type != "defaults"@ {
            if next.bindings.len() > state.bindings.len() {
                assert(end.bindings[state.bindings.len() as int].section == s.selector);
            } else {
                assert(end.read_only[state.read_only.len() as int] == s.selector);
            }
        }
    }
}

/// An inspection of the firewall package accounts for every section but the defaults: an object was
/// found in it, or it is reported as read-only. A section that the agent manages is never read-only:
/// where no object is found in it, the inspection fails. Every selector is occupied, and each object
/// has its binding.
pub proof fn law_firewall_inspection_accounts_for_every_section(
    text: Seq<char>,
    valid: Seq<bool>,
    j: int,
)
    requires
        firewall_snapshot(text, valid) is Ok,
        0 <= j < package_sections(text, "firewall"@, false)->Ok_0.len(),
    ensures
        ({
            let sections = package_sections(text, "firewall"@, false)->Ok_0;
            let snapshot = firewall_snapshot(text, valid)->Ok_0;
            &&& sections[j].section_type == "defaults"@ || firewall_bound(
                snapshot.bindings,
                sections[j].selector,
            ) || (!is_managed(sections[j]) && snapshot.read_only_sections.contains(
                sections[j].selector,
            ))
            &&& snapshot.occupied_sections == selectors(sections)
            &&& firewall_paired(snapshot.inventory.objects, snapshot.bindings)
        }),
{
    let sections = package_sections(text, "firewall"@, false)->Ok_0;
    let defaults = defaults_value(sections)->Ok_0;
    lemma_firewall_scan(empty_scan(), sections, defaults, valid, 0);
    assert(sections[j] == sections[j]);
}

/// Whether a section is the one that some object was found in.
pub open spec fn network_bound(
    bindings: Seq<OpenWrtNetworkObjectBindingView>,
    section: Seq<char>,
) -> bool {
    exists|k: int| 0 <= k < bindings.len() && (#[trigger] bindings[k]).section == section
}

/// Whether each object has the binding of its index.
pub open spec fn network_paired(
    objects: Seq<NetworkObjectView>,
    bindings: Seq<OpenWrtNetworkObjectBindingView>,
) -> bool {
    objects.len() == bindings.len() && forall|k: int|
        0 <= k < objects.len() ==> (#[trigger] bindings[k]).kind == objects[k].kind()
            && bindings[k].id == objects[k].id()
}

proof fn lemma_network_step(state: NetworkScanView, s: UciSectionView, valid: bool)
    requires
        network_step(state, s, valid) is Ok,
        network_paired(state.objects, state.bindings),
    ensures
        ({
            let next = network_step(state, s, valid)->Ok_0;
            &&& network_paired(next.objects, next.bindings)
            &&& next.occupied == state.occupied.push(s.selector)
            &&& (next.read_only == state.read_only && exists|b: OpenWrtNetworkObjectBindingView|
                b.section == s.selector && next.bindings == #[trigger] state.bindings.push(b)) || (
            next.bindings == state.bindings && managed_value(s) == Some(false) && next.read_only
                == state.read_only.push(s.selector))
        }),
{
    reveal(network_step);
    if let Some(o) = network_object_value(s, owner(managed_value(s)->Some_0)) {
        let b = binding_of(s, o);
        assert(b.section == s.selector);
    }
}

proof fn lemma_network_scan(
    state: NetworkScanView,
    sections: Seq<UciSectionView>,
    valid: Seq<bool>,
    i: int,
)
    requires
        0 <= i <= sections.len(),
        network_scan(state, sections, valid, i) is Ok,
        network_paired(state.objects, state.bindings),
    ensures
        ({
            let end = network_scan(state, sections, valid, i)->Ok_0;
            &&& state.bindings.len() <= end.bindings.len()
            &&& forall|k: int|
                0 <= k < state.bindings.len() ==> #[trigger] end.bindings[k] == state.bindings[k]
            &&& state.read_only.len() <= end.read_only.len()
            &&& forall|k: int|
                0 <= k < state.read_only.len() ==> #[trigger] end.read_only[k] == state.read_only[k]
            &&& network_paired(end.objects, end.bindings)
            &&& end.occupied == state.occupied + selectors(sections).skip(i)
            &&& forall|j: int|
                i <= j < sections.len() ==> network_bound(
                    end.bindings,
                    (#[trigger] sections[j]).selector,
                ) || (managed_value(sections[j]) == Some(false) && end.read_only.contains(
                    sections[j].selector,
                ))
        }),
    decreases sections.len() - i,
{
    if i < sections.len() {
        let s = sections[i];
        let next = network_step(state, s, verdict_at(valid, i))->Ok_0;
        lemma_network_step(state, s, verdict_at(valid, i));
        lemma_network_scan(next, sections, valid, i + 1);
        let end = network_scan(state, sections, valid, i)->Ok_0;
        assert forall|k: int| 0 <= k < state.bindings.len() implies #[trigger] end.bindings[k]
            == state.bindings[k] by {
            assert(next.bindings[k] == state.bindings[k]);
        }
        assert forall|k: int| 0 <= k < state.read_only.len() implies #[trigger] end.read_only[k]
            == state.read_only[k] by {
            assert(next.read_only[k] == state.read_only[k]);
        }
        assert(end.occupied =~= state.occupied + selectors(sections).skip(i));
        if next.bindings.len() > state.bindings.len() {
            assert(end.bindings[state.bindings.len() as int].section == s.selector);
        } else {
            assert(end.read_only[state.read_only.len() as int] == s.selector);
        }
    } else {
        assert(state.occupied + selectors(sections).skip(i) =~= state.occupied);
    }
}

proof fn lemma_interface_from(objects: Seq<NetworkObjectView>, id: Seq<char>, i: int)
    requires
        0 <= i,
    ensures
        0 <= interface_from(objects, id, i),
    decreases objects.len() - i,
{
    if i < objects.len() {
        lemma_interface_from(objects, id, i + 1);
    }
}

proof fn lemma_dhcp_scan(
    state: NetworkScanView,
    sections: Seq<UciSectionView>,
    valid: Seq<bool>,
    i: int,
)
    requires
        0 <= i <= sections.len(),
        dhcp_scan(state, sections, valid, i) is Ok,
        network_paired(state.objects, state.bindings),
    ensures
        ({
            let end = dhcp_scan(state, sections, valid, i)->Ok_0;
            &&& network_paired(end.objects, end.bindings)
            &&& end.bindings.len() == state.bindings.len()
            &&& forall|k: int|
                0 <= k < state.bindings.len() ==> (#[trigger] end.bindings[k]).section
                    == state.bindings[k].section
            &&& end.occupied == state.occupied + selectors(sections).skip(i)
        }),
    decreases sections.len() - i,
{
    if i < sections.len() {
        let s = sections[i];
        let next = dhcp_step(state, s, verdict_at(valid, i))->Ok_0;
        if let Some(id) = s.scalar("interface"@) {
            lemma_interface_from(state.objects, id, 0);
        }
        assert(network_paired(next.objects, next.bindings));
        lemma_dhcp_scan(next, sections, valid, i + 1);
        let end = dhcp_scan(state, sections, valid, i)->Ok_0;
        assert(next.occupied == state.occupied.push(s.selector));
        assert(end.occupied =~= state.occupied + selectors(sections).skip(i));
        assert forall|k: int| 0 <= k < state.bindings.len() implies (
        #[trigger] end.bindings[k]).section == state.bindings[k].section by {
            assert(next.bindings[k].section == state.bindings[k].section);
        }
    } else {
        assert(state.occupied + selectors(sections).skip(i) =~= state.occupied);
    }
}

/// An inspection of the network package accounts for every section: an object was found in it, or it is
/// reported as read-only. A section that is marked as the agent's is never read-only: where no object is
/// found in it, the inspection fails. Every selector is occupied, in both packages, and each object
/// has its binding.
pub proof fn law_network_inspection_accounts_for_every_section(
    text: Seq<char>,
    dhcp_text: Seq<char>,
    valid: Seq<bool>,
    dhcp_valid: Seq<bool>,
    j: int,
)
    requires
        network_snapshot(text, dhcp_text, valid, dhcp_valid) is Ok,
        0 <= j < sections_of(text, "network"@)->Ok_0.len(),
    ensures
        ({
            let sections = sections_of(text, "network"@)->Ok_0;
            let dhcp_sections = sections_of(dhcp_text, "dhcp"@)->Ok_0;
            let snapshot = network_snapshot(text, dhcp_text, valid, dhcp_valid)->Ok_0;
            &&& network_bound(snapshot.bindings, sections[j].selector) || (managed_value(sections[j])
                == Some(false) && snapshot.read_only_sections.contains(sections[j].selector))
            &&& snapshot.occupied_sections == selectors(sections)
            &&& snapshot.dhcp_occupied_sections == selectors(dhcp_sections)
            &&& network_paired(snapshot.inventory.objects, snapshot.bindings)
        }),
{
    let sections = sections_of(text, "network"@)->Ok_0;
    let dhcp_sections = sections_of(dhcp_text, "dhcp"@)->Ok_0;
    let start = crate::network_openwrt::empty_scan();
    lemma_network_scan(start, sections, valid, 0);
    let first = network_scan(start, sections, valid, 0)->Ok_0;
    let middle = NetworkScanView { occupied: Seq::empty(), read_only: Seq::empty(), ..first };
    lemma_dhcp_scan(middle, dhcp_sections, dhcp_valid, 0);
    let second = dhcp_scan(middle, dhcp_sections, dhcp_valid, 0)->Ok_0;
    assert(selectors(sections).skip(0) =~= selectors(sections));
    assert(selectors(dhcp_sections).skip(0) =~= selectors(dhcp_sections));
    assert(start.occupied + selectors(sections) =~= selectors(sections));
    assert(middle.occupied + selectors(dhcp_sections) =~= selectors(dhcp_sections));
    if network_bound(first.bindings, sections[j].selector) {
        let k = choose|k: int|
            0 <= k < first.bindings.len() && (#[trigger] first.bindings[k]).section
                == sections[j].selector;
        assert(second.bindings[k].section == sections[j].selector);
    }
}

/// Whether a section is the one that some radio was found in.
pub open spec fn wireless_bound(
    bindings: Seq<OpenWrtWirelessObjectBindingView>,
    section: Seq<char>,
) -> bool {
    exists|k: int| 0 <= k < bindings.len() && (#[trigger] bindings[k]).section == section
}

/// Whether each radio has the binding of its index.
pub open spec fn wireless_paired(
    objects: Seq<WirelessObjectView>,
    bindings: Seq<OpenWrtWirelessObjectBindingView>,
) -> bool {
    objects.len() == bindings.len() && forall|k: int|
        0 <= k < objects.len() ==> (#[trigger] bindings[k]).id == objects[k].id()
}

proof fn lemma_wireless_scan(
    state: WirelessScanView,
    sections: Seq<UciSectionView>,
    valid: Seq<bool>,
    i: int,
)
    requires
        0 <= i <= sections.len(),
        wireless_scan(state, sections, valid, i) is Ok,
        wireless_paired(state.objects, state.bindings),
    ensures
        ({
            let end = wireless_scan(state, sections, valid, i)->Ok_0;
            &&& state.bindings.len() <= end.bindings.len()
            &&& forall|k: int|
                0 <= k < state.bindings.len() ==> #[trigger] end.bindings[k] == state.bindings[k]
            &&& state.read_only.len() <= end.read_only.len()
            &&& forall|k: int|
                0 <= k < state.read_only.len() ==> #[trigger] end.read_only[k] == state.read_only[k]
            &&& wireless_paired(end.objects, end.bindings)
            &&& forall|j: int|
                i <= j < sections.len() ==> (wireless_bound(
                    end.bindings,
                    (#[trigger] sections[j]).selector,
                ) && sections[j].section_type == "wifi-device"@) || end.read_only.contains(
                    sections[j].selector,
                )
        }),
    decreases sections.len() - i,
{
    if i < sections.len() {
        let s = sections[i];
        let next = wireless_step(state, s, verdict_at(valid, i))->Ok_0;
        lemma_wireless_scan(next, sections, valid, i + 1);
        let end = wireless_scan(state, sections, valid, i)->Ok_0;
        assert forall|k: int| 0 <= k < state.bindings.len() implies #[trigger] end.bindings[k]
            == state.bindings[k] by {
            assert(next.bindings[k] == state.bindings[k]);
        }
        assert forall|k: int| 0 <= k < state.read_only.len() implies #[trigger] end.read_only[k]
            == state.read_only[k] by {
            assert(next.read_only[k] == state.read_only[k]);
        }
        if next.bindings.len() > state.bindings.len() {
            assert(end.bindings[state.bindings.len() as int].section == s.selector);
        } else {
            assert(end.read_only[state.read_only.len() as int] == s.selector);
        }
    }
}

/// An inspection of the wireless package accounts for every section: a radio was found in it, or it is
/// reported as read-only. Only device sections hold radios, so every section of a wireless
/// interface, with its credentials, is read-only. Every selector is occupied, and each radio has its
/// binding.
pub proof fn law_wireless_inspection_accounts_for_every_section(
    text: Seq<char>,
    valid: Seq<bool>,
    j: int,
)
    requires
        wireless_snapshot(text, valid) is Ok,
        0 <= j < wireless_sections(text)->Ok_0.len(),
    ensures
        ({
            let sections = wireless_sections(text)->Ok_0;
            let snapshot = wireless_snapshot(text, valid)->Ok_0;
            &&& (wireless_bound(snapshot.bindings, sections[j].selector)
                && sections[j].section_type == "wifi-device"@)
                || snapshot.read_only_sections.contains(sections[j].selector)
            &&& snapshot.occupied_sections == selectors(sections)
            &&& wireless_paired(snapshot.inventory.objects, snapshot.bindings)
        }),
{
    let sections = wireless_sections(text)->Ok_0;
    lemma_wireless_scan(crate::wireless_openwrt::empty_scan(), sections, valid, 0);
    assert(sections[j] == sections[j]);
}

} // verus!
