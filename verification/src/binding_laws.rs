//! What binds an object to its section, and what is handed to the tools and read back from them.

use vstd::prelude::*;
use vstd::utf8::*;

use crate::firewall::{bound_from, inventory_bindings, section_is_of, section_of_from};
use crate::firewall_command::{FirewallCommandErrorView, FirewallCommandOutputView, FirewallCommandView};
use crate::firewall_inventory::{firewall_binding, loose_network, mac_value, OpenWrtObjectBindingView};
use crate::firewall_iptables_execute::validation_plan as iptables_validation_plan;
use crate::firewall_iptables_execute::GenericIptablesTransactionView;
use crate::firewall_model::FirewallObjectView;
use crate::firewall_nft_execute::{
    rollback_source, rollback_text, staging_plan, GenericNftablesTransactionView,
};
use crate::firewall_nft::NftablesRenderErrorView;
use crate::firewall_openwrt_execute::stage_commands;
use crate::firewall_runtime::{iptables_observed, nftables_from_snapshot, nftables_observed};
use crate::firewall_uci::{package_sections, UciSectionView};
use crate::net::{address_format, network_format, IpAddr, IpNetwork};
use crate::net_laws::{lacks, law_address_round_trips, law_network_round_trips};
use crate::network_openwrt_execute::plan_verified;
use crate::text::{ends, is_hex, is_upper, lower, lower_all, starts, utf8_value};
use crate::transaction::{is_replaceable, is_runtime_dir, FileFacts, TransactionState};

verus! {

/// Whether a binding ties an object to a section that is named for it, or to one without a name that shows the same
/// zones.
pub open spec fn ties(b: OpenWrtObjectBindingView, s: UciSectionView, o: FirewallObjectView) -> bool {
    &&& b.section == s.selector
    &&& b.section_type == s.section_type
    &&& b.kind == o.kind()
    &&& b.id == o.id()
    &&& s.has("name"@) ==> s.first("name"@) == Some(o.id())
    &&& (o is Zone || o is AddressSet) ==> s.first("name"@) == Some(o.id())
    &&& o is Zone ==> s.section_type == "zone"@
    &&& o is Forwarding ==> s.section_type == "forwarding"@
    &&& o is FilterRule ==> s.section_type == "rule"@
    &&& o is AddressSet ==> s.section_type == "ipset"@
    &&& o is NatRule ==> s.section_type == "redirect"@ || s.section_type == "nat"@
    &&& o is Forwarding && s.first("name"@) != Some(o.id()) ==> s.first("src"@) == Some(
        o->Forwarding_0.source_zone,
    ) && s.first("dest"@) == Some(o->Forwarding_0.destination_zone)
}

/// Whether a binding ties one of the first objects to the only section that is its own.
pub open spec fn is_tied(
    b: OpenWrtObjectBindingView,
    sections: Seq<UciSectionView>,
    objects: Seq<FirewallObjectView>,
    i: int,
    j: int,
) -> bool {
    &&& 0 <= i < objects.len()
    &&& 0 <= j < sections.len()
    &&& ties(b, sections[j], objects[i])
    &&& forall|k: int| 0 <= k < sections.len() && k != j ==> !section_is_of(#[trigger] sections[k], objects[i])
}

spec fn is_tied_somewhere(
    b: OpenWrtObjectBindingView,
    sections: Seq<UciSectionView>,
    objects: Seq<FirewallObjectView>,
) -> bool {
    exists|i: int, j: int| is_tied(b, sections, objects, i, j)
}

spec fn are_tied(
    bindings: Seq<OpenWrtObjectBindingView>,
    sections: Seq<UciSectionView>,
    objects: Seq<FirewallObjectView>,
) -> bool {
    &&& forall|k: int| 0 <= k < bindings.len() ==> is_tied_somewhere(#[trigger] bindings[k], sections, objects)
    &&& forall|k: int, l: int|
        0 <= k < l < bindings.len() ==> (#[trigger] bindings[k]).section != (#[trigger] bindings[l]).section
}

proof fn lemma_section_of(sections: Seq<UciSectionView>, o: FirewallObjectView, i: int)
    requires
        0 <= i <= sections.len(),
    ensures
        ({
            let k = section_of_from(sections, o, i);
            &&& i <= k <= sections.len()
            &&& k < sections.len() ==> section_is_of(sections[k], o)
            &&& forall|j: int| i <= j < k ==> !section_is_of(#[trigger] sections[j], o)
        }),
    decreases sections.len() - i,
{
    if i < sections.len() && !section_is_of(sections[i], o) {
        lemma_section_of(sections, o, i + 1);
    }
}

proof fn lemma_kinds()
    ensures
        "zone"@ != "forwarding"@ && "zone"@ != "filter_rule"@ && "zone"@ != "address_set"@ && "zone"@ != "nat_rule"@,
        "forwarding"@ != "filter_rule"@ && "forwarding"@ != "address_set"@ && "forwarding"@ != "nat_rule"@,
        "filter_rule"@ != "address_set"@ && "filter_rule"@ != "nat_rule"@,
        "address_set"@ != "nat_rule"@,
{
    reveal_strlit("zone");
    reveal_strlit("forwarding");
    reveal_strlit("filter_rule");
    reveal_strlit("address_set");
    reveal_strlit("nat_rule");
    assert("filter_rule"@[0] != "address_set"@[0]);
    assert("zone"@.len() == 4 && "forwarding"@.len() == 10 && "filter_rule"@.len() == 11);
    assert("address_set"@.len() == 11 && "nat_rule"@.len() == 8);
}

proof fn lemma_ties(s: UciSectionView, o: FirewallObjectView)
    requires
        section_is_of(s, o),
    ensures
        ties(firewall_binding(s, o), s, o),
{
    lemma_kinds();
    let b = firewall_binding(s, o);
    assert(s.first("name"@) is Some ==> s.has("name"@));
    match o {
        FirewallObjectView::Zone(_) => {},
        FirewallObjectView::Forwarding(_) => {},
        FirewallObjectView::FilterRule(_) => {},
        FirewallObjectView::AddressSet(_) => {},
        FirewallObjectView::NatRule(_) => {},
    }
}

proof fn lemma_bound(
    acc: Seq<OpenWrtObjectBindingView>,
    sections: Seq<UciSectionView>,
    objects: Seq<FirewallObjectView>,
    valid: Seq<bool>,
    i: int,
)
    requires
        0 <= i <= objects.len(),
        are_tied(acc, sections, objects),
        bound_from(acc, sections, objects, valid, i) is Ok,
    ensures
        are_tied(bound_from(acc, sections, objects, valid, i)->Ok_0, sections, objects),
    decreases objects.len() - i,
{
    if i < objects.len() {
        let at = section_of_from(sections, objects[i], 0);
        lemma_section_of(sections, objects[i], 0);
        if at >= sections.len() {
            lemma_bound(acc, sections, objects, valid, i + 1);
        } else {
            lemma_section_of(sections, objects[i], at + 1);
            let b = firewall_binding(sections[at], objects[i]);
            let next = acc.push(b);
            lemma_ties(sections[at], objects[i]);
            assert(is_tied(b, sections, objects, i, at));
            assert(is_tied_somewhere(b, sections, objects));
            assert forall|k: int| 0 <= k < next.len() implies is_tied_somewhere(
                #[trigger] next[k],
                sections,
                objects,
            ) by {
                if k < acc.len() {
                    assert(next[k] == acc[k]);
                }
            }
            assert forall|k: int, l: int| 0 <= k < l < next.len() implies (#[trigger] next[k]).section != (
            #[trigger] next[l]).section by {
                assert(next[k] == acc[k]);
                if l < acc.len() {
                    assert(next[l] == acc[l]);
                }
            }
            lemma_bound(next, sections, objects, valid, i + 1);
        }
    }
}

/// Each binding ties one of the objects to the only section that is its own, and no section is bound twice.
pub proof fn law_bindings_tie_objects_to_their_sections(
    text: Seq<char>,
    objects: Seq<FirewallObjectView>,
    valid: Seq<bool>,
    k: int,
    l: int,
)
    requires
        inventory_bindings(text, objects, valid) is Ok,
        0 <= k < inventory_bindings(text, objects, valid)->Ok_0.len(),
        0 <= l < inventory_bindings(text, objects, valid)->Ok_0.len(),
    ensures
        ({
            let sections = package_sections(text, "firewall"@, false)->Ok_0;
            let bindings = inventory_bindings(text, objects, valid)->Ok_0;
            &&& package_sections(text, "firewall"@, false) is Ok
            &&& exists|i: int, j: int| is_tied(bindings[k], sections, objects, i, j)
            &&& k != l ==> bindings[k].section != bindings[l].section
        }),
{
    let sections = package_sections(text, "firewall"@, false)->Ok_0;
    lemma_bound(Seq::empty(), sections, objects, valid, 0);
    let bindings = inventory_bindings(text, objects, valid)->Ok_0;
    assert(is_tied_somewhere(bindings[k], sections, objects));
}

/// An address alone stands for the network of just that address, and a network is read as it is written.
pub proof fn law_addresses_are_networks_of_one(a: IpAddr, n: IpNetwork)
    ensures
        loose_network(address_format(a)) == Some(
            (IpNetwork {
                address: a,
                prefix_len: if a is V4 {
                    32
                } else {
                    128
                },
            }),
        ),
        loose_network(network_format(n)) == Some(n),
{
    law_address_round_trips(a);
    law_network_round_trips(n);
    reveal_strlit("/");
    let s = network_format(n);
    assert(s[address_format(n.address).len() as int] == '/');
}

/// A hardware address is read in lower case, character by character, and without a change where it is in lower case.
pub proof fn law_hardware_addresses_are_in_lower_case(s: Seq<char>)
    ensures
        mac_value(s) matches Some(m) ==> m.len() == s.len() && forall|i: int|
            0 <= i < s.len() ==> !is_upper(#[trigger] m[i]) && (!is_upper(s[i]) ==> m[i] == s[i]),
        mac_value(s) matches Some(m) ==> mac_value(m) == Some(m),
{
    if let Some(m) = mac_value(s) {
        assert forall|i: int| 0 <= i < s.len() implies !is_upper(#[trigger] m[i]) && (!is_upper(s[i]) ==> m[i]
            == s[i]) by {
            assert(m[i] == lower(s[i]));
        }
        assert(lower_all(m) =~= m);
    }
}

/// Both families are tested, each with its own text, and only what is staged.
pub proof fn law_both_families_are_tested(t: GenericIptablesTransactionView)
    ensures
        iptables_validation_plan(t) matches Ok(v) ==> {
            &&& t.state == TransactionState::Staged
            &&& t.stage is Some
            &&& v.len() == 2
            &&& v[0].command != v[1].command
            &&& forall|i: int|
                0 <= i < 2 ==> ((#[trigger] v[i]).command matches FirewallCommandView::IptablesRestoreTest { ipv6 }
                    && v[i].stdin == Some(
                    encode_utf8(
                        if ipv6 {
                            t.stage->Some_0.ipv6_restore
                        } else {
                            t.stage->Some_0.ipv4_restore
                        },
                    ),
                ))
        },
        t.state == TransactionState::Staged && t.stage is Some ==> iptables_validation_plan(t) is Ok,
{
}

/// What is staged is the text that is rendered for the changes from what was inspected.
pub proof fn law_staged_ruleset_is_the_rendered_one(t: GenericNftablesTransactionView)
    ensures
        staging_plan(t) matches Ok(p) ==> {
            &&& t.state == TransactionState::Inspected
            &&& t.snapshot is Some
            &&& nftables_from_snapshot(t.snapshot->Some_0, t.valid, t.plan.changes) matches Ok(stage) && p.contents
                == encode_utf8(stage.ruleset)
            &&& p.invocations.len() == 0
        },
        t.state == TransactionState::Inspected && t.snapshot is Some && nftables_from_snapshot(
            t.snapshot->Some_0,
            t.valid,
            t.plan.changes,
        ) is Ok ==> staging_plan(t) is Ok,
{
}

/// Undoing drops the agent's table and puts back what was listed of it, as whole lines. What was there before is known
/// until the ruleset is loaded.
pub proof fn law_undoing_restores_the_listing(l: Seq<char>, t: GenericNftablesTransactionView)
    ensures
        rollback_text(None) == "delete table inet mbed_agent\n"@,
        starts(rollback_text(Some(l)), "delete table inet mbed_agent\n"@ + l),
        ends(rollback_text(Some(l)), "\n"@),
        rollback_text(Some(l)).len() <= "delete table inet mbed_agent\n"@.len() + l.len() + 1,
        t.state == TransactionState::Inspected || t.state == TransactionState::Staged || t.state
            == TransactionState::Validated ==> rollback_source(t) == t.source_observation,
        t.state == TransactionState::Activated ==> rollback_source(t) is None,
{
    let d = "delete table inet mbed_agent\n"@;
    let r = rollback_text(Some(l));
    reveal_strlit("\n");
    assert(r.take((d + l).len() as int) =~= d + l);
    assert((d + l + "\n"@).skip((d + l).len() as int) =~= "\n"@);
}

/// The batch is given to the tool on its input, and what it staged is then shown from the same directory.
pub proof fn law_batch_is_run_and_shown_in_one_directory(dir: Seq<char>, batch: Seq<char>)
    ensures
        ({
            let v = stage_commands(dir, batch);
            &&& v.len() == 2
            &&& v[0].stdin == Some(encode_utf8(batch))
            &&& v[1].stdin is None
            &&& v[0].command matches FirewallCommandView::UciBatch { staging_dir } && staging_dir == dir
            &&& v[1].command matches FirewallCommandView::UciShowFirewallAt { staging_dir } && staging_dir == dir
        }),
{
}

/// What is observed of both families is what each printed, and nothing is observed unless both printed text.
pub proof fn law_observation_is_what_was_printed(
    ipv4: Result<FirewallCommandOutputView, FirewallCommandErrorView>,
    ipv6: Result<FirewallCommandOutputView, FirewallCommandErrorView>,
)
    ensures
        iptables_observed(ipv4, ipv6) is Ok <==> ipv4 is Ok && ipv6 is Ok && utf8_value(ipv4->Ok_0.stdout) is Some
            && utf8_value(ipv6->Ok_0.stdout) is Some,
        iptables_observed(ipv4, ipv6) matches Ok(o) ==> utf8_value(ipv4->Ok_0.stdout) == Some(o.ipv4_save)
            && utf8_value(ipv6->Ok_0.stdout) == Some(o.ipv6_save),
{
}

/// The agent's table is observed by its listing where it is there, and is nothing where it is not.
pub proof fn law_listing_is_what_was_printed(
    managed: Result<bool, NftablesRenderErrorView>,
    listing: Option<Result<FirewallCommandOutputView, FirewallCommandErrorView>>,
)
    ensures
        managed is Err ==> nftables_observed(managed, listing) is Err,
        managed == Ok::<bool, NftablesRenderErrorView>(false) ==> (nftables_observed(managed, listing) matches Ok(o)
            && o.managed_listing is None),
        managed == Ok::<bool, NftablesRenderErrorView>(true) ==> (nftables_observed(managed, listing) is Ok <==> listing
            is Some && listing->Some_0 is Ok && utf8_value(listing->Some_0->Ok_0.stdout) is Some),
        managed == Ok::<bool, NftablesRenderErrorView>(true) && nftables_observed(managed, listing) is Ok ==> utf8_value(
            listing->Some_0->Ok_0.stdout,
        ) == nftables_observed(managed, listing)->Ok_0.managed_listing,
{
}

/// Only a real file is replaced and only a real directory is used, and either is root's where root is required.
pub proof fn law_files_are_their_owners(f: FileFacts, require_root: bool)
    ensures
        is_replaceable(f, require_root) <==> f.is_file && !f.is_symlink && (!require_root || f.uid == 0 && f.gid == 0),
        is_runtime_dir(f, require_root) <==> f.is_dir && !f.is_symlink && (!require_root || f.uid == 0 && f.gid == 0),
{
}

/// A plan is verified only where it is valid, the package is shown and the plan is confirmed by what is shown.
pub proof fn law_verified_plan_is_confirmed(
    plan_valid: bool,
    reply: Result<FirewallCommandOutputView, FirewallCommandErrorView>,
    valid: Seq<bool>,
    confirmed: bool,
)
    ensures
        plan_verified(plan_valid, reply, valid, confirmed) is Ok ==> plan_valid && reply is Ok && confirmed,
{
}

} // verus!
