//! When what is recorded of the network and what the kernel shows go together.

use vstd::prelude::*;

use crate::change::ObjectOwnership;
use crate::json::JsonView;
use crate::net::IpNetwork;
use crate::network_model::{NetworkInterfaceConfigView, NetworkObjectView};
use crate::network_reconcile::{
    any_profile, canonical_objects, devices_differ, full_reconciled, is_host, is_linked, is_listed,
    is_present, is_profile, is_runtime_object, joined_objects, normal, normals, profiles_present, reconciled,
    same_object_in, same_semantics, without_profiles, RuntimeCanonicalRecordView,
};
use crate::network_runtime::{entries_of, is_name, name_at, observed, unseen};
use crate::rule_reading_laws::is_same_rule;
use crate::runtime_reading_laws::{is_given, is_same_but_identity, lemma_filter_holds, lemma_records};
use vstd::seq_lib::group_to_multiset_ensures;

verus! {

/// Whether two objects are the same but for the identity and the owner of a route or a rule.
pub open spec fn is_alike(a: NetworkObjectView, b: NetworkObjectView) -> bool {
    match (a, b) {
        (NetworkObjectView::Route(x), NetworkObjectView::Route(y)) => is_same_but_identity(x, y) && x.enabled
            == y.enabled,
        (NetworkObjectView::PolicyRule(x), NetworkObjectView::PolicyRule(y)) => is_same_rule(x, y) && x.enabled
            == y.enabled,
        _ => a == b,
    }
}

proof fn lemma_normal(a: NetworkObjectView, b: NetworkObjectView)
    ensures
        normal(a) == normal(b) <==> is_alike(a, b),
{
    match (a, b) {
        (NetworkObjectView::Route(x), NetworkObjectView::Route(y)) => {
            if is_alike(a, b) {
                assert(normal(a)->Route_0 =~= normal(b)->Route_0);
            } else {
                assert(normal(a)->Route_0.destination == x.destination);
            }
        },
        (NetworkObjectView::PolicyRule(x), NetworkObjectView::PolicyRule(y)) => {
            if is_alike(a, b) {
                assert(normal(a)->PolicyRule_0 =~= normal(b)->PolicyRule_0);
            }
        },
        _ => {},
    }
}

proof fn lemma_found(a: Seq<NetworkObjectView>, b: Seq<NetworkObjectView>, i: int)
    requires
        same_semantics(a, b),
        0 <= i < a.len(),
    ensures
        exists|j: int| 0 <= j < b.len() && is_alike(a[i], #[trigger] b[j]),
{
    broadcast use group_to_multiset_ensures;

    let x = normals(a);
    let y = normals(b);
    assert(x[i] == normal(a[i]));
    assert(x.contains(x[i]));
    assert(x.to_multiset().count(x[i]) > 0);
    assert(y.contains(x[i]));
    let j = choose|j: int| 0 <= j < y.len() && y[j] == x[i];
    assert(y[j] == normal(b[j]));
    lemma_normal(a[i], b[j]);
}

/// Two lists of objects mean the same only where they are as many and each object of one has its like in the
/// other. The identity and the owner of a route or a rule make no difference, every other property does.
pub proof fn law_same_meaning_pairs_the_objects(a: Seq<NetworkObjectView>, b: Seq<NetworkObjectView>, i: int)
    requires
        same_semantics(a, b),
    ensures
        a.len() == b.len(),
        0 <= i < a.len() ==> exists|j: int| 0 <= j < b.len() && is_alike(a[i], #[trigger] b[j]),
        0 <= i < b.len() ==> exists|j: int| 0 <= j < a.len() && is_alike(b[i], #[trigger] a[j]),
{
    broadcast use group_to_multiset_ensures;

    assert(normals(a).len() == normals(a).to_multiset().len());
    assert(normals(b).len() == normals(b).to_multiset().len());
    if 0 <= i < a.len() {
        lemma_found(a, b, i);
    }
    if 0 <= i < b.len() {
        lemma_found(b, a, i);
    }
}

/// Two lists of objects that pair up in order mean the same.
pub proof fn law_pairs_mean_the_same(a: Seq<NetworkObjectView>, b: Seq<NetworkObjectView>)
    requires
        a.len() == b.len(),
        forall|i: int| 0 <= i < a.len() ==> is_alike(#[trigger] a[i], b[i]),
    ensures
        same_semantics(a, b),
{
    assert forall|i: int| 0 <= i < a.len() implies normals(a)[i] == normals(b)[i] by {
        lemma_normal(a[i], b[i]);
    }
    assert(normals(a) =~= normals(b));
}

/// Whether a record can be used: it is not empty and not too large, it decodes to a state of one of two versions,
/// and the state is of this boot.
pub open spec fn is_usable(rec: RuntimeCanonicalRecordView, boot_id: Seq<char>) -> bool {
    &&& 0 < rec.encoded_bytes <= crate::network_reconcile::MAX_CANONICAL_BYTES
    &&& rec.state matches Some(s) && (s.schema_version == 1 || s.schema_version == 2) && s.boot_id == boot_id
}

/// Whether an interface is one that the agent may bring about: its own, enabled, under the agent's prefix, with
/// usable addresses and nothing else set.
pub open spec fn is_agent_profile(x: NetworkInterfaceConfigView) -> bool {
    &&& x.ownership == ObjectOwnership::AgentOwned
    &&& x.enabled
    &&& x.id.len() >= 6 && x.id.take(6) == "agent_"@
    &&& x.mtu is None
    &&& x.mac_override is None
    &&& x.peerdns
    &&& x.dns_servers.len() == 0
    &&& x.dns_search.len() == 0
    &&& x.dhcp_client_id is None
    &&& x.dhcp_vendor_id is None
    &&& x.dhcp_hostname is None
    &&& x.dhcp_request_options.len() == 0
    &&& !x.dhcp_no_release
    &&& x.dhcp_server is None
    &&& forall|i: int| 0 <= i < x.addresses.len() ==> is_host(#[trigger] x.addresses[i])
}

/// Whether an object is one that the agent may bring about in the running network.
pub open spec fn is_agent_object(o: NetworkObjectView) -> bool {
    match o {
        NetworkObjectView::Interface(x) => is_agent_profile(x),
        NetworkObjectView::Route(x) => x.ownership == ObjectOwnership::AgentOwned && x.enabled,
        NetworkObjectView::PolicyRule(x) => x.ownership == ObjectOwnership::AgentOwned && x.enabled && 32000
            <= x.priority <= 32063,
        _ => false,
    }
}

proof fn lemma_agent_object(o: NetworkObjectView, valid: bool)
    ensures
        is_runtime_object(o, valid) <==> valid && is_agent_object(o),
{
    reveal_strlit("agent_");
    assert("agent_"@.len() == 6);
}

/// Whether an interface shows in the lists of links and of addresses: its device is among both, and each of its
/// addresses, which are distinct, is given to the device.
pub open spec fn shows_profile(x: NetworkInterfaceConfigView, links: Seq<JsonView>, records: Seq<JsonView>) -> bool {
    &&& is_name(x.device)
    &&& exists|i: int| 0 <= i < links.len() && (#[trigger] links[i]).text_at("ifname"@) == Some(x.device)
    &&& exists|i: int|
        0 <= i < records.len() && (#[trigger] records[i]).text_at("ifname"@) == Some(x.device)
            && records[i].list_at("addr_info"@) is Some
    &&& x.addresses.no_duplicates()
    &&& forall|i: int| 0 <= i < x.addresses.len() ==> is_given(records, x.device, #[trigger] x.addresses[i])
}

proof fn lemma_present(x: NetworkInterfaceConfigView, links: Seq<JsonView>, records: Seq<JsonView>)
    ensures
        is_present(x, links, records) <==> shows_profile(x, links, records),
{
    if is_linked(links, x.device) {
        let i = choose|i: int| 0 <= i < links.len() && (#[trigger] name_at(links[i], "ifname"@)) == Some(x.device);
        assert(links[i].text_at("ifname"@) == Some(x.device));
    }
    if is_listed(records, x.device) {
        let i = choose|i: int| 0 <= i < records.len() && (#[trigger] entries_of(records[i], x.device)) is Some;
        assert(records[i].text_at("ifname"@) == Some(x.device));
    }
    if shows_profile(x, links, records) {
        let i = choose|i: int|
            0 <= i < links.len() && (#[trigger] links[i]).text_at("ifname"@) == Some(x.device);
        assert(name_at(links[i], "ifname"@) == Some(x.device));
        let j = choose|i: int|
            0 <= i < records.len() && (#[trigger] records[i]).text_at("ifname"@) == Some(x.device)
                && records[i].list_at("addr_info"@) is Some;
        assert(entries_of(records[j], x.device) is Some);
    }
    if is_name(x.device) {
        assert forall|n: IpNetwork| #[trigger]
            observed(records, x.device).addresses.contains(n) <==> is_given(records, x.device, n) by {
            lemma_records(unseen(), records, x.device, 0, n, true);
        }
    }
}

/// Whether the object model accepts an object of a list and the agent may bring it about.
pub open spec fn is_accepted(objects: Seq<NetworkObjectView>, valid: Seq<bool>, i: int) -> bool {
    i < valid.len() && valid[i] && is_agent_object(objects[i])
}

/// Whether the objects of a record are usable: not too many, each accepted by the object model and of a kind that
/// the agent brings about, and no two interfaces on one device.
pub open spec fn are_agent_objects(objects: Seq<NetworkObjectView>, valid: Seq<bool>) -> bool {
    &&& objects.len() <= crate::network_runtime::MAX_OBJECTS
    &&& forall|i: int| 0 <= i < objects.len() ==> is_accepted(objects, valid, i)
    &&& forall|i: int, j: int|
        0 <= i < j < objects.len() && (#[trigger] objects[i]) is Interface && (#[trigger] objects[j]) is Interface
            ==> objects[i]->Interface_0.device != objects[j]->Interface_0.device
}

proof fn lemma_canonical(objects: Seq<NetworkObjectView>, valid: Seq<bool>, interfaces: bool)
    ensures
        canonical_objects(objects, valid, interfaces) is Ok <==> are_agent_objects(objects, valid) && (interfaces
            || forall|i: int| 0 <= i < objects.len() ==> !((#[trigger] objects[i]) is Interface)),
{
    if are_agent_objects(objects, valid) && (interfaces || forall|i: int|
        0 <= i < objects.len() ==> !((#[trigger] objects[i]) is Interface)) {
        assert forall|i: int| 0 <= i < objects.len() implies is_runtime_object(
            #[trigger] objects[i],
            crate::network_openwrt::verdict_at(valid, i),
        ) by {
            assert(is_accepted(objects, valid, i));
            lemma_agent_object(objects[i], crate::network_openwrt::verdict_at(valid, i));
        }
        assert(devices_differ(objects));
        if any_profile(objects) {
            let i = choose|i: int| 0 <= i < objects.len() && is_profile(#[trigger] objects[i]);
            assert(objects[i] is Interface);
        }
        assert(crate::network_reconcile::are_runtime_objects(objects, valid, interfaces));
    }
    if canonical_objects(objects, valid, interfaces) is Ok {
        assert forall|i: int| 0 <= i < objects.len() implies is_accepted(objects, valid, i) by {
            assert(is_runtime_object(objects[i], crate::network_openwrt::verdict_at(valid, i)));
            lemma_agent_object(objects[i], crate::network_openwrt::verdict_at(valid, i));
        }
        assert(devices_differ(objects));
        if !interfaces {
            assert forall|i: int| 0 <= i < objects.len() implies !((#[trigger] objects[i]) is Interface) by {
                assert(!is_profile(objects[i]));
            }
        }
    }
}

/// The routes and rules that the kernel shows as the agent's are taken as the recorded ones only where the record
/// is usable, of this boot and about the same objects. Without a record there may be none. What comes out is what
/// the record holds.
pub proof fn law_routes_reconcile_only_with_their_record(
    native: Seq<NetworkObjectView>,
    record: Option<RuntimeCanonicalRecordView>,
    boot_id: Seq<char>,
)
    ensures
        ({
            let r = reconciled(native, record, boot_id);
            match record {
                None => {
                    &&& r is Ok <==> native.len() == 0
                    &&& r matches Ok(s) ==> s.boot_id == boot_id && s.inventory.objects.len() == 0
                },
                Some(rec) => {
                    &&& r is Ok <==> {
                        &&& is_usable(rec, boot_id)
                        &&& are_agent_objects(rec.state->Some_0.inventory.objects, rec.valid)
                        &&& forall|i: int|
                            0 <= i < rec.state->Some_0.inventory.objects.len() ==> !((
                            #[trigger] rec.state->Some_0.inventory.objects[i]) is Interface)
                        &&& same_semantics(native, rec.state->Some_0.inventory.objects)
                    }
                    &&& r matches Ok(s) ==> s.boot_id == boot_id && s.inventory == rec.state->Some_0.inventory
                },
            }
        }),
{
    if let Some(rec) = record {
        if let Some(s) = rec.state {
            lemma_canonical(s.inventory.objects, rec.valid, false);
        }
    }
}

/// Whether an object of another list has the kind and the identity of one.
pub open spec fn is_taken(objects: Seq<NetworkObjectView>, o: NetworkObjectView) -> bool {
    exists|i: int| 0 <= i < objects.len() && (#[trigger] objects[i]).kind() == o.kind() && objects[i].id() == o.id()
}

proof fn lemma_joined(objects: Seq<NetworkObjectView>, more: Seq<NetworkObjectView>, i: int)
    requires
        0 <= i <= more.len(),
    ensures
        joined_objects(objects, more, i) matches Some(r) ==> r == objects + more.skip(i),
        joined_objects(objects, more, i) is Some <==> forall|k: int|
            i <= k < more.len() ==> !is_taken(objects + more.skip(i).take(k - i), #[trigger] more[k]),
    decreases more.len() - i,
{
    if i < more.len() {
        let next = objects.push(more[i]);
        lemma_joined(next, more, i + 1);
        assert(next + more.skip(i + 1) =~= objects + more.skip(i));
        assert(objects + more.skip(i).take(0) =~= objects);
        assert forall|k: int| i + 1 <= k < more.len() implies #[trigger] (next + more.skip(i + 1).take(
            k - (i + 1),
        )) == objects + more.skip(i).take(k - i) by {
            assert(next + more.skip(i + 1).take(k - (i + 1)) =~= objects + more.skip(i).take(k - i));
        }
        assert(same_object_in(objects, more[i]) == is_taken(objects, more[i]));
        if joined_objects(objects, more, i) is Some {
            assert forall|k: int| i <= k < more.len() implies !is_taken(
                objects + more.skip(i).take(k - i),
                #[trigger] more[k],
            ) by {
                if k > i {
                    assert(next + more.skip(i + 1).take(k - (i + 1)) == objects + more.skip(i).take(k - i));
                }
            }
        }
        if forall|k: int|
            i <= k < more.len() ==> !is_taken(objects + more.skip(i).take(k - i), #[trigger] more[k]) {
            assert(!is_taken(objects + more.skip(i).take(i - i), more[i]));
            assert forall|k: int| i + 1 <= k < more.len() implies !is_taken(
                next + more.skip(i + 1).take(k - (i + 1)),
                #[trigger] more[k],
            ) by {
                assert(next + more.skip(i + 1).take(k - (i + 1)) == objects + more.skip(i).take(k - i));
            }
        }
    } else {
        assert(objects + more.skip(i) =~= objects);
    }
}

/// The whole network reconciles only where the record is usable and of this boot, its interfaces are shown with
/// their addresses, the routes and rules that the kernel shows as the agent's are the recorded ones, and no
/// recorded object takes the place of another. What comes out is the platform's objects and the recorded ones
/// behind them.
pub proof fn law_network_reconciles_only_with_its_record(
    native: Seq<NetworkObjectView>,
    platform: Seq<NetworkObjectView>,
    links: Seq<JsonView>,
    records: Seq<JsonView>,
    record: Option<RuntimeCanonicalRecordView>,
    boot_id: Seq<char>,
)
    ensures
        ({
            let r = full_reconciled(native, platform, links, records, record, boot_id);
            match record {
                None => {
                    &&& r is Ok <==> native.len() == 0
                    &&& r matches Ok(s) ==> s.boot_id == boot_id && s.inventory.objects == platform
                },
                Some(rec) => {
                    let kept = rec.state->Some_0.inventory.objects;
                    &&& r is Ok <==> {
                        &&& is_usable(rec, boot_id)
                        &&& are_agent_objects(kept, rec.valid)
                        &&& rec.state->Some_0.schema_version == 1 ==> forall|i: int|
                            0 <= i < kept.len() ==> !((#[trigger] kept[i]) is Interface)
                        &&& same_semantics(native, without_profiles(kept))
                        &&& forall|i: int|
                            0 <= i < kept.len() && (#[trigger] kept[i]) is Interface ==> shows_profile(
                                kept[i]->Interface_0,
                                links,
                                records,
                            )
                        &&& forall|k: int|
                            0 <= k < kept.len() ==> !is_taken(platform + kept.take(k), #[trigger] kept[k])
                        &&& platform.len() + kept.len() <= crate::network_runtime::MAX_OBJECTS
                    }
                    &&& r matches Ok(s) ==> s.boot_id == boot_id && s.inventory.objects == platform + kept
                },
            }
        }),
{
    if let Some(rec) = record {
        if let Some(s) = rec.state {
            let kept = s.inventory.objects;
            lemma_canonical(kept, rec.valid, true);
            lemma_joined(platform, kept, 0);
            assert(kept.skip(0) =~= kept);
            assert(any_profile(kept) <==> exists|i: int| 0 <= i < kept.len() && (#[trigger] kept[i]) is Interface)
                by {
                if any_profile(kept) {
                    let i = choose|i: int| 0 <= i < kept.len() && is_profile(#[trigger] kept[i]);
                    assert(kept[i] is Interface);
                }
                if exists|i: int| 0 <= i < kept.len() && (#[trigger] kept[i]) is Interface {
                    let i = choose|i: int| 0 <= i < kept.len() && (#[trigger] kept[i]) is Interface;
                    assert(is_profile(kept[i]));
                }
            }
            assert forall|i: int| 0 <= i < kept.len() && (#[trigger] kept[i]) is Interface implies is_present(
                kept[i]->Interface_0,
                links,
                records,
            ) == shows_profile(kept[i]->Interface_0, links, records) by {
                lemma_present(kept[i]->Interface_0, links, records);
            }
            assert(forall|k: int|
                0 <= k < kept.len() ==> kept.skip(0).take(k - 0) == #[trigger] kept.take(k));
            assert(profiles_present(kept, links, records) <==> forall|i: int|
                0 <= i < kept.len() && (#[trigger] kept[i]) is Interface ==> shows_profile(
                    kept[i]->Interface_0,
                    links,
                    records,
                ));
            assert(joined_objects(platform, kept, 0) is Some <==> forall|k: int|
                0 <= k < kept.len() ==> !is_taken(platform + kept.take(k), #[trigger] kept[k])) by {
                assert forall|k: int| 0 <= k < kept.len() implies platform + kept.skip(0).take(k - 0)
                    == #[trigger] (platform + kept.take(k)) by {}
            }
        }
    }
}

/// The objects without the interfaces are the others, in their order.
pub proof fn law_only_interfaces_are_set_aside(objects: Seq<NetworkObjectView>, o: NetworkObjectView)
    ensures
        without_profiles(objects).contains(o) <==> objects.contains(o) && !(o is Interface),
{
    lemma_filter_holds(objects, |x: NetworkObjectView| !is_profile(x), o);
}

} // verus!
