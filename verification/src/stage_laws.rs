//! What holds of every stage.

use vstd::prelude::*;

use crate::change::ObjectOwnership;
use crate::firewall::{firewall_stage, StageDraftView};
use crate::firewall_inventory::OpenWrtObjectBindingView;
use crate::firewall_iptables::{
    family_restore, iptables_stage, IptablesFamilyState, MAX_RESTORE_BYTES,
};
use crate::firewall_model::{FirewallObjectView, FirewallPlannedChangeView};
use crate::firewall_nft::{nftables_stage, ruleset_text, NftablesTableState, MAX_RULESET_BYTES};
use crate::firewall_project::{changes_projected, owned_objects, projected};
use crate::network_model::NetworkPlannedChangeView;
use crate::network_openwrt::{verdict_at, OpenWrtNetworkInventorySnapshotView, OpenWrtNetworkObjectBindingView};
use crate::network_stage::network_stage;
use crate::platform::FirewallBackend;
use crate::text::{byte_len, ends};
use crate::uci_render::{cleared_text, delete_option_line};
use crate::wireless_model::{WirelessMutationPlanView, WirelessPlannedChangeView};
use crate::wireless_openwrt::{
    wireless_stage, OpenWrtWirelessInventorySnapshotView, OpenWrtWirelessObjectBindingView,
};

verus! {

/// The options from `i` on that are supported.
pub open spec fn supported_from(options: Seq<Seq<char>>, supported: Seq<Seq<char>>, i: int) -> Seq<
    Seq<char>,
>
    decreases options.len() - i,
{
    if i < 0 || i >= options.len() {
        Seq::empty()
    } else if supported.contains(options[i]) {
        seq![options[i]] + supported_from(options, supported, i + 1)
    } else {
        supported_from(options, supported, i + 1)
    }
}

/// A removal of each option from `i` on, behind `acc`.
pub open spec fn removals(
    acc: Seq<char>,
    package: Seq<char>,
    section: Seq<char>,
    options: Seq<Seq<char>>,
    i: int,
) -> Seq<char>
    decreases options.len() - i,
{
    if i < 0 || i >= options.len() {
        acc
    } else {
        removals(
            acc + delete_option_line(package, section, options[i]),
            package,
            section,
            options,
            i + 1,
        )
    }
}

proof fn lemma_removals_shift(
    acc: Seq<char>,
    package: Seq<char>,
    section: Seq<char>,
    first: Seq<char>,
    rest: Seq<Seq<char>>,
    i: int,
)
    requires
        0 <= i <= rest.len(),
    ensures
        removals(acc, package, section, seq![first] + rest, i + 1) == removals(
            acc,
            package,
            section,
            rest,
            i,
        ),
    decreases rest.len() - i,
{
    if i < rest.len() {
        assert((seq![first] + rest)[i + 1] == rest[i]);
        lemma_removals_shift(
            acc + delete_option_line(package, section, rest[i]),
            package,
            section,
            first,
            rest,
            i + 1,
        );
    }
}

proof fn lemma_cleared(
    acc: Seq<char>,
    package: Seq<char>,
    section: Seq<char>,
    options: Seq<Seq<char>>,
    supported: Seq<Seq<char>>,
    i: int,
)
    requires
        0 <= i <= options.len(),
    ensures
        cleared_text(acc, package, section, options, supported, i) == removals(
            acc,
            package,
            section,
            supported_from(options, supported, i),
            0,
        ),
        forall|k: int|
            0 <= k < supported_from(options, supported, i).len() ==> supported.contains(
                #[trigger] supported_from(options, supported, i)[k],
            ) && options.contains(supported_from(options, supported, i)[k]),
    decreases options.len() - i,
{
    if i < options.len() {
        let rest = supported_from(options, supported, i + 1);
        if supported.contains(options[i]) {
            let next = acc + delete_option_line(package, section, options[i]);
            lemma_cleared(next, package, section, options, supported, i + 1);
            lemma_removals_shift(next, package, section, options[i], rest, 0);
            assert((seq![options[i]] + rest)[0] == options[i]);
            assert forall|k: int| 0 <= k < (seq![options[i]] + rest).len() implies supported.contains(
                #[trigger] (seq![options[i]] + rest)[k],
            ) && options.contains((seq![options[i]] + rest)[k]) by {
                if k > 0 {
                    assert((seq![options[i]] + rest)[k] == rest[k - 1]);
                }
            }
        } else {
            lemma_cleared(acc, package, section, options, supported, i + 1);
        }
    }
}

/// An update removes only options that are supported and were there. Options that are not understood,
/// such as those of a vendor, are left alone.
pub proof fn law_unknown_options_are_left_alone(
    acc: Seq<char>,
    package: Seq<char>,
    section: Seq<char>,
    options: Seq<Seq<char>>,
    supported: Seq<Seq<char>>,
)
    ensures
        cleared_text(acc, package, section, options, supported, 0) == removals(
            acc,
            package,
            section,
            supported_from(options, supported, 0),
            0,
        ),
        forall|k: int|
            0 <= k < supported_from(options, supported, 0).len() ==> supported.contains(
                #[trigger] supported_from(options, supported, 0)[k],
            ) && options.contains(supported_from(options, supported, 0)[k]),
{
    lemma_cleared(acc, package, section, options, supported, 0);
}

proof fn lemma_ends(a: Seq<char>, b: Seq<char>)
    ensures
        ends(a + b, b),
        (a + b).take(a.len() as int) == a,
{
    assert((a + b).skip((a + b).len() - b.len()) =~= b);
    assert((a + b).take(a.len() as int) =~= a);
}

proof fn lemma_firewall_draft(
    d: StageDraftView,
    changes: Seq<FirewallPlannedChangeView>,
    bindings: Seq<OpenWrtObjectBindingView>,
    backend: FirewallBackend,
    i: int,
)
    requires
        0 <= i <= changes.len(),
        crate::firewall::drafted(d, changes, bindings, backend, i) is Ok,
        i > 0 ==> byte_len(d.batch) <= crate::firewall::MAX_BATCH_BYTES,
    ensures
        changes.len() > 0 ==> byte_len(
            crate::firewall::drafted(d, changes, bindings, backend, i)->Ok_0.batch,
        ) <= crate::firewall::MAX_BATCH_BYTES,
    decreases changes.len() - i,
{
    if i < changes.len() {
        let next = crate::firewall::change_drafted(d, changes[i], bindings, backend)->Ok_0;
        lemma_firewall_draft(next, changes, bindings, backend, i + 1);
    }
}

/// What stands before the last command of a batch.
pub open spec fn before_commit(batch: Seq<char>, commit: Seq<char>) -> Seq<char> {
    batch.take(batch.len() - commit.len())
}

/// A batch for the firewall package is bounded and ends with its commit. The checks are those of the
/// backend, and only the reload of the firewall follows them.
pub proof fn law_firewall_stage_is_bounded_and_committed(
    changes: Seq<FirewallPlannedChangeView>,
    bindings: Seq<OpenWrtObjectBindingView>,
    occupied: Seq<Seq<char>>,
    backend: FirewallBackend,
)
    requires
        firewall_stage(changes, bindings, occupied, backend) is Ok,
        changes.len() > 0,
    ensures
        ({
            let stage = firewall_stage(changes, bindings, occupied, backend)->Ok_0;
            &&& ends(stage.uci_batch, "commit firewall\n"@)
            &&& byte_len(before_commit(stage.uci_batch, "commit firewall\n"@))
                <= crate::firewall::MAX_BATCH_BYTES
            &&& stage.activation_service == "/etc/init.d/firewall"@
            &&& stage.activation_action == "reload"@
        }),
{
    let start = StageDraftView {
        batch: Seq::empty(),
        reserved: if occupied.len() > 0 {
            occupied
        } else {
            crate::firewall::bound_sections(bindings)
        },
    };
    lemma_firewall_draft(start, changes, bindings, backend, 0);
    let d = crate::firewall::drafted(start, changes, bindings, backend, 0)->Ok_0;
    lemma_ends(d.batch, "commit firewall\n"@);
}

proof fn lemma_network_draft(
    d: crate::network_stage::StageDraftView,
    changes: Seq<NetworkPlannedChangeView>,
    bindings: Seq<OpenWrtNetworkObjectBindingView>,
    i: int,
)
    requires
        0 <= i <= changes.len(),
        crate::network_stage::drafted(d, changes, bindings, i) is Ok,
        i > 0 ==> byte_len(d.batch) + byte_len(d.dhcp_batch)
            <= crate::network_stage::MAX_BATCH_BYTES,
    ensures
        changes.len() > 0 ==> byte_len(
            crate::network_stage::drafted(d, changes, bindings, i)->Ok_0.batch,
        ) + byte_len(crate::network_stage::drafted(d, changes, bindings, i)->Ok_0.dhcp_batch)
            <= crate::network_stage::MAX_BATCH_BYTES,
    decreases changes.len() - i,
{
    if i < changes.len() {
        let next = crate::network_stage::change_drafted(d, changes[i], bindings)->Ok_0;
        lemma_network_draft(next, changes, bindings, i + 1);
    }
}

/// A batch for the network package is bounded and ends with its commit, and so does the batch for the
/// DHCP package, where there is one.
pub proof fn law_network_stage_is_bounded_and_committed(
    changes: Seq<NetworkPlannedChangeView>,
    snapshot: OpenWrtNetworkInventorySnapshotView,
)
    requires
        network_stage(changes, snapshot) is Ok,
    ensures
        ({
            let stage = network_stage(changes, snapshot)->Ok_0;
            &&& ends(stage.uci_batch, "commit network\n"@)
            &&& byte_len(before_commit(stage.uci_batch, "commit network\n"@))
                <= crate::network_stage::MAX_BATCH_BYTES
            &&& stage.dhcp_uci_batch.len() == 0 || (ends(stage.dhcp_uci_batch, "commit dhcp\n"@)
                && byte_len(before_commit(stage.dhcp_uci_batch, "commit dhcp\n"@))
                <= crate::network_stage::MAX_BATCH_BYTES)
        }),
{
    let start = crate::network_stage::StageDraftView {
        batch: Seq::empty(),
        dhcp_batch: Seq::empty(),
        reserved: snapshot.occupied_sections,
        dhcp_reserved: snapshot.dhcp_occupied_sections,
    };
    lemma_network_draft(start, changes, snapshot.bindings, 0);
    let d = crate::network_stage::drafted(start, changes, snapshot.bindings, 0)->Ok_0;
    lemma_ends(d.batch, "commit network\n"@);
    lemma_ends(d.dhcp_batch, "commit dhcp\n"@);
}

proof fn lemma_wireless_draft(
    batch: Seq<char>,
    changes: Seq<WirelessPlannedChangeView>,
    bindings: Seq<OpenWrtWirelessObjectBindingView>,
    i: int,
)
    requires
        0 <= i <= changes.len(),
        crate::wireless_openwrt::drafted(batch, changes, bindings, i) is Ok,
        i > 0 ==> byte_len(batch) <= crate::wireless_openwrt::MAX_BATCH_BYTES,
    ensures
        changes.len() > 0 ==> byte_len(
            crate::wireless_openwrt::drafted(batch, changes, bindings, i)->Ok_0,
        ) <= crate::wireless_openwrt::MAX_BATCH_BYTES,
    decreases changes.len() - i,
{
    if i < changes.len() {
        let b = crate::wireless_openwrt::binding_from(bindings, changes[i].before.id(), 0)->Some_0;
        let next = crate::wireless_openwrt::radio_updated(
            batch,
            b,
            crate::wireless_openwrt::radio_of(changes[i].before),
            crate::wireless_openwrt::radio_of(changes[i].after),
        )->Ok_0;
        lemma_wireless_draft(next, changes, bindings, i + 1);
    }
}

/// A batch for the wireless package is bounded and ends with its commit.
pub proof fn law_wireless_stage_is_bounded_and_committed(
    plan: WirelessMutationPlanView,
    snapshot: OpenWrtWirelessInventorySnapshotView,
)
    requires
        wireless_stage(plan, snapshot) is Ok,
    ensures
        ({
            let stage = wireless_stage(plan, snapshot)->Ok_0;
            &&& ends(stage.uci_batch, "commit wireless\n"@)
            &&& byte_len(before_commit(stage.uci_batch, "commit wireless\n"@))
                <= crate::wireless_openwrt::MAX_BATCH_BYTES
            &&& stage.activation_program == "/sbin/wifi"@
            &&& stage.activation_argument == "reload"@
        }),
{
    lemma_wireless_draft(Seq::empty(), plan.changes, snapshot.bindings, 0);
    let batch = crate::wireless_openwrt::drafted(
        Seq::empty(),
        plan.changes,
        snapshot.bindings,
        0,
    )->Ok_0;
    lemma_ends(batch, "commit wireless\n"@);
}

proof fn lemma_changes_owned(
    objects: Seq<FirewallObjectView>,
    changes: Seq<FirewallPlannedChangeView>,
    i: int,
    j: int,
)
    requires
        0 <= i <= j < changes.len(),
        changes_projected(objects, changes, i) is Ok,
    ensures
        changes[j].before matches Some(o) ==> o.ownership() == ObjectOwnership::AgentOwned,
        changes[j].after matches Some(o) ==> o.ownership() == ObjectOwnership::AgentOwned,
    decreases j - i,
{
    if i < j {
        let next = crate::firewall_project::change_projected(objects, changes[i])->Ok_0;
        lemma_changes_owned(next, changes, i + 1, j);
    }
}

proof fn lemma_owned_ignores_foreign(
    acc: Seq<FirewallObjectView>,
    objects: Seq<FirewallObjectView>,
    valid: Seq<bool>,
    foreign: FirewallObjectView,
    i: int,
)
    requires
        0 <= i <= objects.len(),
        objects.len() == valid.len(),
        foreign.ownership() != ObjectOwnership::AgentOwned,
    ensures
        owned_objects(acc, objects.push(foreign), valid.push(true), i) == owned_objects(
            acc,
            objects,
            valid,
            i,
        ),
    decreases objects.len() - i,
{
    let more = objects.push(foreign);
    if i < objects.len() {
        assert(more[i] == objects[i]);
        assert(verdict_at(valid.push(true), i) == verdict_at(valid, i));
        if verdict_at(valid, i) {
            if objects[i].ownership() == ObjectOwnership::AgentOwned {
                lemma_owned_ignores_foreign(
                    crate::firewall_project::with_object(acc, objects[i]),
                    objects,
                    valid,
                    foreign,
                    i + 1,
                );
            } else {
                lemma_owned_ignores_foreign(acc, objects, valid, foreign, i + 1);
            }
        }
    } else {
        assert(more[i] == foreign);
        assert(owned_objects(acc, more, valid.push(true), i + 1) == Ok::<
            Seq<FirewallObjectView>,
            crate::firewall_project::FirewallProjectionError,
        >(acc));
    }
}

/// Native artifacts are made of the agent's objects alone: a plan that touches an object of the platform
/// is refused, and an object of the platform more in the inventory changes nothing.
pub proof fn law_platform_objects_never_enter_native_artifacts(
    objects: Seq<FirewallObjectView>,
    valid: Seq<bool>,
    changes: Seq<FirewallPlannedChangeView>,
    foreign: FirewallObjectView,
    table: NftablesTableState,
    ipv4: IptablesFamilyState,
    ipv6: IptablesFamilyState,
)
    requires
        objects.len() == valid.len(),
        foreign.ownership() != ObjectOwnership::AgentOwned,
    ensures
        forall|j: int|
            0 <= j < changes.len() && (((#[trigger] changes[j]).before == Some(foreign))
                || changes[j].after == Some(foreign)) ==> nftables_stage(
                objects,
                valid,
                changes,
                table,
            ) is Err && iptables_stage(objects, valid, changes, ipv4, ipv6) is Err,
        nftables_stage(objects.push(foreign), valid.push(true), changes, table) == nftables_stage(
            objects,
            valid,
            changes,
            table,
        ),
        iptables_stage(objects.push(foreign), valid.push(true), changes, ipv4, ipv6)
            == iptables_stage(objects, valid, changes, ipv4, ipv6),
{
    lemma_owned_ignores_foreign(Seq::empty(), objects, valid, foreign, 0);
    assert(projected(objects.push(foreign), valid.push(true), changes) == projected(
        objects,
        valid,
        changes,
    ));
    assert forall|j: int|
        0 <= j < changes.len() && (((#[trigger] changes[j]).before == Some(foreign))
            || changes[j].after == Some(foreign)) implies nftables_stage(
        objects,
        valid,
        changes,
        table,
    ) is Err && iptables_stage(objects, valid, changes, ipv4, ipv6) is Err by {
        if projected(objects, valid, changes) is Ok {
            let owned = owned_objects(Seq::empty(), objects, valid, 0)->Ok_0;
            lemma_changes_owned(owned, changes, 0, j);
        }
    }
}

proof fn lemma_ruleset_bounded(c: crate::firewall_nft::RenderContextView, table: NftablesTableState)
    ensures
        ruleset_text(c, table) matches Ok(t) ==> byte_len(t) <= MAX_RULESET_BYTES,
{
    reveal(ruleset_text);
}

/// Native artifacts are bounded.
pub proof fn law_native_artifacts_are_bounded(
    objects: Seq<FirewallObjectView>,
    valid: Seq<bool>,
    changes: Seq<FirewallPlannedChangeView>,
    table: NftablesTableState,
    ipv4: IptablesFamilyState,
    ipv6: IptablesFamilyState,
)
    ensures
        nftables_stage(objects, valid, changes, table) matches Ok(s) ==> byte_len(s.ruleset)
            <= MAX_RULESET_BYTES,
        iptables_stage(objects, valid, changes, ipv4, ipv6) matches Ok(s) ==> byte_len(
            s.ipv4_restore,
        ) <= MAX_RESTORE_BYTES && byte_len(s.ipv6_restore) <= MAX_RESTORE_BYTES,
{
    reveal(family_restore);
    if let Ok(owned) = projected(objects, valid, changes) {
        if let Ok(c) = crate::firewall_nft::context_of(owned) {
            lemma_ruleset_bounded(c, table);
        }
    }
}

} // verus!
