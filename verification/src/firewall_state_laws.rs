//! When what is recorded of the firewall and what the kernel shows go together.

use vstd::prelude::*;

use crate::change::ObjectOwnership;
use crate::firewall_iptables::{family_state, IptablesFamilyState};
use crate::firewall_model::{FirewallObjectView, FirewallPlannedChangeView};
use crate::firewall_nft::{table_state, NftablesTableState};
use crate::firewall_project::projected;
use crate::firewall_runtime::{
    applied_state, bounded_encoding, fingerprint, identities_differ, is_boot_char, is_boot_name,
    is_owned_inventory, reconciled, FirewallCanonicalRecordView, GenericFirewallBackend,
    GenericFirewallInventorySnapshotView, GenericFirewallObservationView, GenericFirewallStateErrorView,
    NativeFingerprintView, OwnedDigestsView, MAX_BOOT_ID_BYTES, MAX_CANONICAL_STATE_BYTES, MAX_OBJECTS,
};
use crate::text::byte_len;

verus! {

/// Whether the object model accepts an object of a list and the agent owns it.
pub open spec fn is_accepted(objects: Seq<FirewallObjectView>, valid: Seq<bool>, i: int) -> bool {
    i < valid.len() && valid[i] && objects[i].ownership() == ObjectOwnership::AgentOwned
}

/// Whether the objects of a record are usable: not too many, each accepted by the object model and the agent's, and no
/// two of one kind and name.
pub open spec fn are_recorded(objects: Seq<FirewallObjectView>, valid: Seq<bool>) -> bool {
    &&& objects.len() <= MAX_OBJECTS
    &&& forall|i: int| 0 <= i < objects.len() ==> is_accepted(objects, valid, i)
    &&& forall|i: int, j: int|
        0 <= i < j < objects.len() ==> !((#[trigger] objects[i]).kind() == (#[trigger] objects[j]).kind()
            && objects[i].id() == objects[j].id())
}

proof fn lemma_recorded(objects: Seq<FirewallObjectView>, valid: Seq<bool>)
    ensures
        objects.len() <= MAX_OBJECTS && is_owned_inventory(objects, valid) <==> are_recorded(objects, valid),
{
    if is_owned_inventory(objects, valid) {
        assert forall|i: int| 0 <= i < objects.len() implies is_accepted(objects, valid, i) by {
            assert(objects[i].ownership() == ObjectOwnership::AgentOwned);
        }
        assert(identities_differ(objects));
    }
    if are_recorded(objects, valid) {
        assert forall|i: int| 0 <= i < objects.len() implies crate::network_openwrt::verdict_at(valid, i) && (
        #[trigger] objects[i]).ownership() == ObjectOwnership::AgentOwned by {
            assert(is_accepted(objects, valid, i));
        }
        assert(identities_differ(objects));
    }
}

/// A firewall is taken as the recorded one only where the record is usable, of this boot and backend, and about exactly
/// what the kernel shows. Without a record nothing of the agent's may be there. What comes out is what the record
/// holds.
pub proof fn law_firewall_reconciles_only_with_its_record(
    record: Option<FirewallCanonicalRecordView>,
    boot_id: Seq<char>,
    backend: GenericFirewallBackend,
    native: Option<NativeFingerprintView>,
)
    ensures
        ({
            let r = reconciled(record, boot_id, backend, native);
            &&& r matches Ok(s) ==> s.boot_id == boot_id && s.backend == backend && s.native == native
            &&& match record {
                None => {
                    &&& r is Ok <==> native is None
                    &&& r matches Ok(s) ==> s.inventory.objects.len() == 0
                },
                Some(rec) => {
                    &&& r is Ok <==> {
                        &&& rec.encoded_bytes <= MAX_CANONICAL_STATE_BYTES
                        &&& rec.state matches Some(s) && s.schema_version == 1 && s.boot_id == boot_id && s.backend
                            == backend && are_recorded(s.inventory.objects, rec.valid) && native == Some(s.native)
                    }
                    &&& r matches Ok(s) ==> s.inventory == rec.state->Some_0.inventory
                },
            }
        }),
{
    if let Some(rec) = record {
        if let Some(s) = rec.state {
            lemma_recorded(s.inventory.objects, rec.valid);
        }
    }
}

/// What the kernel shows of an iptables firewall is known by the digests of both families, where both hold all of the
/// agent's chains, and is nothing where neither holds any. One family without the other is refused.
pub proof fn law_iptables_is_known_by_both_families(ipv4: Seq<char>, ipv6: Seq<char>, digests: OwnedDigestsView)
    ensures
        ({
            let f = fingerprint(
                GenericFirewallBackend::Iptables,
                (GenericFirewallObservationView::Iptables { ipv4_save: ipv4, ipv6_save: ipv6 }),
                digests,
            );
            let a = family_state(ipv4);
            let b = family_state(ipv6);
            &&& a is Err || b is Err ==> f is Err
            &&& a is Ok && b is Ok && a->Ok_0 != b->Ok_0 ==> f == Err::<
                Option<NativeFingerprintView>,
                GenericFirewallStateErrorView,
            >(GenericFirewallStateErrorView::PartialFamilyState)
            &&& (f matches Ok(None)) ==> a is Ok && a->Ok_0 == IptablesFamilyState::Absent && b is Ok && b->Ok_0
                == IptablesFamilyState::Absent
            &&& a is Ok && b is Ok && a->Ok_0 == IptablesFamilyState::Absent && b->Ok_0
                == IptablesFamilyState::Absent ==> (f matches Ok(None))
            &&& f matches Ok(Some(x)) ==> {
                &&& a is Ok && a->Ok_0 == IptablesFamilyState::AgentOwned
                &&& b is Ok && b->Ok_0 == IptablesFamilyState::AgentOwned
                &&& digests.ipv4 is Ok && digests.ipv6 is Ok
                &&& x matches NativeFingerprintView::Iptables { ipv4_digest, ipv6_digest } && ipv4_digest
                    == digests.ipv4->Ok_0 && ipv6_digest == digests.ipv6->Ok_0
            }
        }),
{
}

/// What the kernel shows of an nftables firewall is known by the digest of the agent's table, and is nothing where there
/// is none. What another backend shows is refused.
pub proof fn law_nftables_is_known_by_its_table(listing: Option<Seq<char>>, digests: OwnedDigestsView)
    ensures
        ({
            let f = fingerprint(
                GenericFirewallBackend::Nftables,
                GenericFirewallObservationView::Nftables(listing),
                digests,
            );
            &&& listing is None <==> (f matches Ok(None))
            &&& f matches Ok(Some(x)) ==> {
                &&& listing is Some
                &&& table_state(listing) is Ok && table_state(listing)->Ok_0 == NftablesTableState::AgentOwned
                &&& digests.nftables is Ok
                &&& x matches NativeFingerprintView::Nftables { digest } && digest == digests.nftables->Ok_0
            }
            &&& fingerprint(
                GenericFirewallBackend::Iptables,
                GenericFirewallObservationView::Nftables(listing),
                digests,
            ) == Err::<Option<NativeFingerprintView>, GenericFirewallStateErrorView>(
                GenericFirewallStateErrorView::BackendMismatch,
            )
        }),
{
}

/// An applied firewall is recorded for the boot and the backend of its inspection, with the objects that the plan leads
/// to and what the kernel then shows. It has to show something.
pub proof fn law_applied_firewall_is_recorded_as_planned(
    snapshot: GenericFirewallInventorySnapshotView,
    valid: Seq<bool>,
    changes: Seq<FirewallPlannedChangeView>,
    boot_id: Seq<char>,
    observation: GenericFirewallObservationView,
    digests: OwnedDigestsView,
)
    ensures
        applied_state(snapshot, valid, changes, boot_id, observation, digests) matches Ok(s) ==> {
            &&& s.schema_version == 1
            &&& s.boot_id == boot_id
            &&& snapshot.boot_id == boot_id
            &&& s.backend == snapshot.backend
            &&& projected(snapshot.inventory.objects, valid, changes) is Ok
            &&& s.inventory.objects == projected(snapshot.inventory.objects, valid, changes)->Ok_0
            &&& fingerprint(snapshot.backend, observation, digests) == Ok::<
                Option<NativeFingerprintView>,
                GenericFirewallStateErrorView,
            >(Some(s.native))
        },
{
}

/// A boot has a name of letters, digits, hyphens and underscores, which is not empty and not too long, and a record is
/// kept only where its encoding is not too large.
pub proof fn law_boot_names_and_records_are_bounded(s: Seq<char>, encoded: Option<Seq<u8>>, i: int)
    ensures
        is_boot_name(s) ==> 0 < s.len() && byte_len(s) <= MAX_BOOT_ID_BYTES && (0 <= i < s.len() ==> is_boot_char(
            s[i],
        )),
        0 <= i < s.len() && (s[i] == ' ' || s[i] == '/' || s[i] == '.' || s[i] == '\n') ==> !is_boot_name(s),
        bounded_encoding(encoded) is Ok <==> encoded is Some && encoded->Some_0.len() <= MAX_CANONICAL_STATE_BYTES,
        bounded_encoding(encoded) matches Ok(b) ==> encoded == Some(b),
{
}

} // verus!
