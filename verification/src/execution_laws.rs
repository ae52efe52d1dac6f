//! What the steps of a transaction ask for before they are taken.

use vstd::prelude::*;

use crate::firewall_command::{FirewallCommandErrorView, FirewallCommandOutputView, FirewallCommandView};
use crate::firewall_model::{FirewallObject, FirewallObjectView};
use crate::firewall_openwrt_execute::activated as firewall_activated;
use crate::firewall_openwrt_execute::inspected as firewall_inspected;
use crate::firewall_openwrt_execute::staged as firewall_staged;
use crate::firewall_openwrt_execute::validated as firewall_validated;
use crate::firewall_openwrt_execute::verified as firewall_verified;
use crate::firewall_openwrt_execute::{check_commands, OpenWrtFirewallTransactionView};
use crate::firewall::OpenWrtValidation;
use crate::inventory_match::{keyed, same_inventory, Keyed};
use crate::network_model::{NetworkObject, NetworkObjectView};
use crate::network_openwrt_execute::activated as network_activated;
use crate::network_openwrt_execute::inspected as network_inspected;
use crate::network_openwrt_execute::staged as network_staged;
use crate::network_openwrt_execute::validated as network_validated;
use crate::network_openwrt_execute::verified as network_verified;
use crate::network_openwrt_execute::OpenWrtNetworkTransactionView;
use crate::rule_reading_laws::lemma_push_contains;
use crate::transaction::{
    config_fault, first_failure, is_private_dir, ConfigFault, ConfigReadView, FileFacts, Pending,
    TransactionState, MAX_CONFIG_BYTES,
};
use crate::wireless_model::{WirelessObject, WirelessObjectView};
use crate::wireless_openwrt_execute::activated as wireless_activated;
use crate::wireless_openwrt_execute::inspected as wireless_inspected;
use crate::wireless_openwrt_execute::staged as wireless_staged;
use crate::wireless_openwrt_execute::validated as wireless_validated;
use crate::wireless_openwrt_execute::verified as wireless_verified;
use crate::wireless_openwrt_execute::OpenWrtWirelessTransactionView;

verus! {

/// Two inventories that compare alike hold the same objects.
pub proof fn law_same_inventories_hold_the_same<T: Keyed>(a: Seq<T::V>, b: Seq<T::V>, x: T::V)
    requires
        same_inventory::<T>(a, b),
    ensures
        a.contains(x) <==> b.contains(x),
{
    let key = T::key(x);
    assert(keyed::<T>(a, key) == keyed::<T>(b, key));
    lemma_keyed::<T>(a, key, x);
    lemma_keyed::<T>(b, key, x);
}

proof fn lemma_keyed<T: Keyed>(s: Seq<T::V>, key: (Seq<char>, Seq<char>), x: T::V)
    ensures
        keyed::<T>(s, key).contains(x) <==> s.contains(x) && T::key(x) == key,
    decreases s.len(),
{
    reveal(Seq::filter);
    if s.len() > 0 {
        let t = s.drop_last();
        lemma_keyed::<T>(t, key, x);
        let k = keyed::<T>(t, key);
        assert(keyed::<T>(s, key) == (if T::key(s.last()) == key {
            k.push(s.last())
        } else {
            k
        }));
        lemma_push_contains(k, s.last(), x);
        lemma_push_contains(t, s.last(), x);
        assert(s =~= t.push(s.last()));
    }
}

/// Two inventories that differ in an object do not compare alike.
pub proof fn law_different_inventories_compare_unlike<T: Keyed>(a: Seq<T::V>, b: Seq<T::V>, x: T::V)
    requires
        a.contains(x) != b.contains(x),
    ensures
        !same_inventory::<T>(a, b),
{
    if same_inventory::<T>(a, b) {
        law_same_inventories_hold_the_same::<T>(a, b, x);
    }
}

proof fn lemma_no_failure(replies: Seq<Result<FirewallCommandOutputView, FirewallCommandErrorView>>, i: int)
    requires
        0 <= i <= replies.len(),
    ensures
        match first_failure(replies, i) {
            None => forall|k: int| i <= k < replies.len() ==> (#[trigger] replies[k]) is Ok,
            Some(e) => exists|k: int|
                i <= k < replies.len() && #[trigger] replies[k] == Err::<
                    FirewallCommandOutputView,
                    FirewallCommandErrorView,
                >(e),
        },
    decreases replies.len() - i,
{
    if i < replies.len() && replies[i] is Ok {
        lemma_no_failure(replies, i + 1);
    }
}

/// No failure is found among replies only where each of them is a success, and one that is found is among them.
pub proof fn law_no_failure_is_success(replies: Seq<Result<FirewallCommandOutputView, FirewallCommandErrorView>>)
    ensures
        match first_failure(replies, 0) {
            None => forall|k: int| 0 <= k < replies.len() ==> (#[trigger] replies[k]) is Ok,
            Some(e) => exists|k: int|
                0 <= k < replies.len() && #[trigger] replies[k] == Err::<
                    FirewallCommandOutputView,
                    FirewallCommandErrorView,
                >(e),
        },
{
    lemma_no_failure(replies, 0);
}

/// A configuration is used only where it is a regular file and no link, not too large, root's where that is asked for,
/// and was read whole.
pub proof fn law_configuration_is_a_whole_regular_file(c: ConfigReadView, require_root: bool)
    ensures
        config_fault(c, require_root) is None <==> {
            &&& c.facts.is_file
            &&& !c.facts.is_symlink
            &&& c.facts.length <= MAX_CONFIG_BYTES
            &&& require_root ==> c.facts.uid == 0 && c.facts.gid == 0
            &&& c.bytes.len() == c.facts.length
        },
        config_fault(c, require_root) == Some(ConfigFault::Changed) ==> c.bytes.len() != c.facts.length,
{
}

/// A directory is private only where it is a directory and no link, and nobody but its owner may use it.
pub proof fn law_private_directory_is_its_owners(f: FileFacts)
    ensures
        is_private_dir(f) ==> f.is_dir && !f.is_symlink && f.mode & 0o040 == 0 && f.mode & 0o020 == 0 && f.mode & 0o010
            == 0 && f.mode & 0o004 == 0 && f.mode & 0o002 == 0 && f.mode & 0o001 == 0,
        f.is_dir && !f.is_symlink && f.mode & 0o040 == 0 && f.mode & 0o020 == 0 && f.mode & 0o010 == 0 && f.mode & 0o004
            == 0 && f.mode & 0o002 == 0 && f.mode & 0o001 == 0 ==> is_private_dir(f),
{
    let m = f.mode;
    assert(m & 0o077 == 0 ==> m & 0o040 == 0 && m & 0o020 == 0 && m & 0o010 == 0 && m & 0o004 == 0 && m & 0o002 == 0 && m
        & 0o001 == 0) by (bit_vector);
    assert(m & 0o040 == 0 && m & 0o020 == 0 && m & 0o010 == 0 && m & 0o004 == 0 && m & 0o002 == 0 && m & 0o001 == 0 ==> m
        & 0o077 == 0) by (bit_vector);
}

/// The checks of a staged firewall are those that its stage names, on the staged files.
pub proof fn law_checks_are_run_on_the_staged_files(validations: Seq<OpenWrtValidation>, dir: Seq<char>, k: int)
    ensures
        check_commands(validations, dir).len() == validations.len(),
        0 <= k < validations.len() ==> check_commands(validations, dir)[k].stdin is None && match validations[k] {
            OpenWrtValidation::Fw3PrintIpv4 => check_commands(validations, dir)[k].command
                == (FirewallCommandView::Fw3PrintIpv4 { staging_dir: dir }),
            OpenWrtValidation::Fw3PrintIpv6 => check_commands(validations, dir)[k].command
                == (FirewallCommandView::Fw3PrintIpv6 { staging_dir: dir }),
            OpenWrtValidation::Fw4Check => check_commands(validations, dir)[k].command
                == (FirewallCommandView::Fw4Check { staging_dir: dir }),
        },
{
}

/// A package of the firewall is staged only where both commands succeed and the staged package holds exactly the expected
/// objects. The rest of the transaction stays as it was.
pub proof fn law_staged_firewall_holds_the_expected_objects(
    t: OpenWrtFirewallTransactionView,
    replies: Seq<Result<FirewallCommandOutputView, FirewallCommandErrorView>>,
    valid: Seq<bool>,
    o: FirewallObjectView,
)
    requires
        firewall_staged(t, replies, valid) is Ok,
    ensures
        replies.len() == 2 && replies[0] is Ok && replies[1] is Ok,
        t.expected is Some,
        firewall_inspected(replies[1]->Ok_0, valid) is Ok,
        firewall_inspected(replies[1]->Ok_0, valid)->Ok_0.inventory.objects.contains(o)
            <==> t.expected->Some_0.objects.contains(o),
        ({
            let n = firewall_staged(t, replies, valid)->Ok_0;
            &&& n.plan == t.plan
            &&& n.stage == t.stage
            &&& n.expected == t.expected
            &&& n.staging_dir == t.staging_dir
            &&& n.source_digest == t.source_digest
            &&& n.source_uci == t.source_uci
            &&& n.config_path == t.config_path
        }),
{
    law_no_failure_is_success(replies);
    let a = firewall_inspected(replies[1]->Ok_0, valid)->Ok_0.inventory.objects;
    law_same_inventories_hold_the_same::<FirewallObject>(a, t.expected->Some_0.objects, o);
}

/// A transaction on the firewall is verified only where the live package holds exactly the expected objects.
pub proof fn law_verified_firewall_holds_the_expected_objects(
    t: OpenWrtFirewallTransactionView,
    reply: Result<FirewallCommandOutputView, FirewallCommandErrorView>,
    valid: Seq<bool>,
    o: FirewallObjectView,
)
    requires
        firewall_verified(t, reply, valid) is Ok,
    ensures
        reply is Ok,
        t.expected is Some,
        firewall_inspected(reply->Ok_0, valid) is Ok,
        firewall_inspected(reply->Ok_0, valid)->Ok_0.inventory.objects.contains(o)
            <==> t.expected->Some_0.objects.contains(o),
{
    let a = firewall_inspected(reply->Ok_0, valid)->Ok_0.inventory.objects;
    law_same_inventories_hold_the_same::<FirewallObject>(a, t.expected->Some_0.objects, o);
}

/// A staged package of the firewall counts as checked only where each check of the stage was run and succeeded, and as
/// activated only where the reload succeeded.
pub proof fn law_firewall_steps_need_success(
    t: OpenWrtFirewallTransactionView,
    replies: Seq<Result<FirewallCommandOutputView, FirewallCommandErrorView>>,
    reload: Result<FirewallCommandOutputView, FirewallCommandErrorView>,
    k: int,
)
    ensures
        firewall_validated(t, replies) matches Ok(n) ==> t.stage is Some && replies.len()
            == t.stage->Some_0.validations.len() && (0 <= k < replies.len() ==> replies[k] is Ok) && n.stage == t.stage
            && n.expected == t.expected,
        firewall_activated(t, reload) matches Ok(n) ==> reload is Ok && n.expected == t.expected,
        firewall_activated(t, reload) is Ok <==> t.state == TransactionState::Validated && t.pending
            == Pending::Activation && reload is Ok,
{
    law_no_failure_is_success(replies);
}

/// A package of the network is staged only where both commands succeed and the staged package holds exactly the expected
/// objects. The rest of the transaction stays as it was.
pub proof fn law_staged_network_holds_the_expected_objects(
    t: OpenWrtNetworkTransactionView,
    replies: Seq<Result<FirewallCommandOutputView, FirewallCommandErrorView>>,
    valid: Seq<bool>,
    o: NetworkObjectView,
)
    requires
        network_staged(t, replies, valid) is Ok,
    ensures
        replies.len() == 2 && replies[0] is Ok && replies[1] is Ok,
        t.expected is Some,
        network_inspected(replies[1]->Ok_0, valid) is Ok,
        network_inspected(replies[1]->Ok_0, valid)->Ok_0.inventory.objects.contains(o)
            <==> t.expected->Some_0.objects.contains(o),
        ({
            let n = network_staged(t, replies, valid)->Ok_0;
            &&& n.plan == t.plan
            &&& n.stage == t.stage
            &&& n.expected == t.expected
            &&& n.staging_dir == t.staging_dir
            &&& n.source_digest == t.source_digest
            &&& n.source_uci == t.source_uci
            &&& n.config_path == t.config_path
        }),
{
    law_no_failure_is_success(replies);
    let a = network_inspected(replies[1]->Ok_0, valid)->Ok_0.inventory.objects;
    law_same_inventories_hold_the_same::<NetworkObject>(a, t.expected->Some_0.objects, o);
}

/// A transaction on the network is verified only where the live package holds exactly the expected objects.
pub proof fn law_verified_network_holds_the_expected_objects(
    t: OpenWrtNetworkTransactionView,
    reply: Result<FirewallCommandOutputView, FirewallCommandErrorView>,
    valid: Seq<bool>,
    o: NetworkObjectView,
)
    requires
        network_verified(t, reply, valid) is Ok,
    ensures
        reply is Ok,
        t.expected is Some,
        network_inspected(reply->Ok_0, valid) is Ok,
        network_inspected(reply->Ok_0, valid)->Ok_0.inventory.objects.contains(o)
            <==> t.expected->Some_0.objects.contains(o),
{
    let a = network_inspected(reply->Ok_0, valid)->Ok_0.inventory.objects;
    law_same_inventories_hold_the_same::<NetworkObject>(a, t.expected->Some_0.objects, o);
}

/// A staged package of the network counts as checked only where each check of the stage was run and succeeded, and as
/// activated only where the reload succeeded.
pub proof fn law_network_steps_need_success(
    t: OpenWrtNetworkTransactionView,
    replies: Seq<Result<FirewallCommandOutputView, FirewallCommandErrorView>>,
    reload: Result<FirewallCommandOutputView, FirewallCommandErrorView>,
    k: int,
)
    ensures
        network_validated(t, replies) matches Ok(n) ==> t.stage is Some && replies.len()
            == t.stage->Some_0.validations.len() && (0 <= k < replies.len() ==> replies[k] is Ok) && n.stage == t.stage
            && n.expected == t.expected,
        network_activated(t, reload) matches Ok(n) ==> reload is Ok && n.expected == t.expected,
        network_activated(t, reload) is Ok <==> t.state == TransactionState::Validated && t.pending
            == Pending::Activation && reload is Ok,
{
    law_no_failure_is_success(replies);
}

/// A package of the wireless is staged only where both commands succeed and the staged package holds exactly the expected
/// objects. The rest of the transaction stays as it was.
pub proof fn law_staged_wireless_holds_the_expected_objects(
    t: OpenWrtWirelessTransactionView,
    replies: Seq<Result<FirewallCommandOutputView, FirewallCommandErrorView>>,
    valid: Seq<bool>,
    o: WirelessObjectView,
)
    requires
        wireless_staged(t, replies, valid) is Ok,
    ensures
        replies.len() == 2 && replies[0] is Ok && replies[1] is Ok,
        t.expected is Some,
        wireless_inspected(replies[1]->Ok_0, valid) is Ok,
        wireless_inspected(replies[1]->Ok_0, valid)->Ok_0.inventory.objects.contains(o)
            <==> t.expected->Some_0.objects.contains(o),
        ({
            let n = wireless_staged(t, replies, valid)->Ok_0;
            &&& n.plan == t.plan
            &&& n.stage == t.stage
            &&& n.expected == t.expected
            &&& n.staging_dir == t.staging_dir
            &&& n.source_digest == t.source_digest
            &&& n.source_uci == t.source_uci
            &&& n.config_path == t.config_path
        }),
{
    law_no_failure_is_success(replies);
    let a = wireless_inspected(replies[1]->Ok_0, valid)->Ok_0.inventory.objects;
    law_same_inventories_hold_the_same::<WirelessObject>(a, t.expected->Some_0.objects, o);
}

/// A transaction on the wireless is verified only where the live package holds exactly the expected objects.
pub proof fn law_verified_wireless_holds_the_expected_objects(
    t: OpenWrtWirelessTransactionView,
    reply: Result<FirewallCommandOutputView, FirewallCommandErrorView>,
    valid: Seq<bool>,
    confirmed: bool,
    o: WirelessObjectView,
)
    requires
        wireless_verified(t, reply, valid, confirmed) is Ok,
    ensures
        reply is Ok,
        confirmed,
        t.expected is Some,
        wireless_inspected(reply->Ok_0, valid) is Ok,
        wireless_inspected(reply->Ok_0, valid)->Ok_0.inventory.objects.contains(o)
            <==> t.expected->Some_0.objects.contains(o),
{
    let a = wireless_inspected(reply->Ok_0, valid)->Ok_0.inventory.objects;
    law_same_inventories_hold_the_same::<WirelessObject>(a, t.expected->Some_0.objects, o);
}

/// A staged package of the wireless counts as checked only where each check of the stage was run and succeeded, and as
/// activated only where the reload succeeded.
pub proof fn law_wireless_steps_need_success(
    t: OpenWrtWirelessTransactionView,
    replies: Seq<Result<FirewallCommandOutputView, FirewallCommandErrorView>>,
    reload: Result<FirewallCommandOutputView, FirewallCommandErrorView>,
    k: int,
)
    ensures
        wireless_validated(t, replies) matches Ok(n) ==> t.stage is Some && replies.len()
            == t.stage->Some_0.validations.len() && (0 <= k < replies.len() ==> replies[k] is Ok) && n.stage == t.stage
            && n.expected == t.expected,
        wireless_activated(t, reload) matches Ok(n) ==> reload is Ok && n.expected == t.expected,
        wireless_activated(t, reload) is Ok <==> t.state == TransactionState::Validated && t.pending
            == Pending::Activation && reload is Ok,
{
    law_no_failure_is_success(replies);
}

} // verus!
