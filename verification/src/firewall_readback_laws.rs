//! What is written into a section of the firewall is read back from it as the same object.

use vstd::prelude::*;

use crate::change::ObjectOwnership;
use crate::firewall::{
    byte_texts, entry_text, entry_texts, family_name, filter_rule_section, first_network, first_port, match_lists,
    nat_base, nat_rule_section, network_texts, object_section, placed, port_of,
    port_text, port_texts, protocol_name, protocols_text, protocols_value, set_match_name, verdict_name, with_set,
};
use crate::firewall_inventory::{
    address_option, address_set_value, all_words, common_matches, directed, entries_value, family_word,
    filter_rule_value, firewall_object_value, forwarding_value, has_plurality, is_mac, is_short_digest, limit_value,
    list_of, loose_network, nat_rule_value, networks_option, ownership_marker, ownership_value, plural_options,
    port_option, port_value, ports_option, protocol_word, protocols_option, set_option, translation_value,
    verdict_word, zone_value, LooseNetworks, MacEntries, Macs, NetworkEntries, PortEntries, Ports, ProtocolWords,
    ZoneDefaults,
};
use crate::firewall_model::{
    FirewallAddressSetView, FirewallDirection, FirewallFamily, FirewallFilterRuleView, FirewallForwardingView,
    FirewallMatchView, FirewallNatKind, FirewallNatRuleView, FirewallObjectView, FirewallProtocol,
    FirewallSetEntryView, FirewallVerdict, FirewallZoneView, PortRange,
};
use crate::firewall_uci::{UciOptionView, UciSectionView};
use crate::net::{address_format, network_format, IpAddr, IpNetwork};
use crate::net_laws::{law_address_round_trips, lemma_find_at};
use crate::network_stage::address_of;
use crate::number_laws::{law_sized_numbers_round_trip, lemma_decimal};
use crate::parse::{map_all, Bytes, Reader};
use crate::platform::FirewallBackend;
use crate::readback_laws::{
    filled, lemma_flag, lemma_lookup_push, lemma_lookup_put, lemma_map_all, lemma_only_list, lemma_slash,
    lemma_written_get, list_from, lookup, one, pick, pick_list, scalars, tag, with_lists, written,
};
use crate::text::{
    decimal, find_from, is_ascii_space, is_digit, lemma_find_from, lower_all, skip_spaces, split_once, starts,
    word_end, words, words_from,
};
use crate::uci_render::{
    first_of, flag, put_list, put_some, ListsView, OptionsView, RenderedSectionView,
};

verus! {

/// The section of a zone.
pub open spec fn zone_section(v: FirewallZoneView) -> RenderedSectionView {
    object_section(FirewallObjectView::Zone(v), FirewallBackend::Fw4)->Ok_0
}

proof fn lemma_zone_lookup(v: FirewallZoneView, name: Seq<char>)
    ensures
        ({
            let p0 = None::<Seq<char>>;
            let p1 = pick(p0, name == "name"@, Some(v.id));
            let p2 = pick(p1, name == "enabled"@, Some(flag(v.enabled)));
            let p3 = pick(p2, name == "input"@, Some(verdict_name(v.input)));
            let p4 = pick(p3, name == "output"@, Some(verdict_name(v.output)));
            let p5 = pick(p4, name == "forward"@, Some(verdict_name(v.forward)));
            let p6 = pick(p5, name == "masq"@, Some(flag(v.masquerade)));
            let p7 = pick(p6, name == "mtu_fix"@, Some(flag(v.mtu_fix)));
            lookup(zone_section(v).options, name) == p7
        }),
{
    let o0 = Seq::<(Seq<char>, Seq<char>)>::empty();
    assert(lookup(o0, name) is None);
    lemma_lookup_push(o0, name, "name"@, v.id);
    let o1 = o0.push(("name"@, v.id));
    lemma_lookup_push(o1, name, "enabled"@, flag(v.enabled));
    let o2 = o1.push(("enabled"@, flag(v.enabled)));
    lemma_lookup_push(o2, name, "input"@, verdict_name(v.input));
    let o3 = o2.push(("input"@, verdict_name(v.input)));
    lemma_lookup_push(o3, name, "output"@, verdict_name(v.output));
    let o4 = o3.push(("output"@, verdict_name(v.output)));
    lemma_lookup_push(o4, name, "forward"@, verdict_name(v.forward));
    let o5 = o4.push(("forward"@, verdict_name(v.forward)));
    lemma_lookup_push(o5, name, "masq"@, flag(v.masquerade));
    let o6 = o5.push(("masq"@, flag(v.masquerade)));
    lemma_lookup_push(o6, name, "mtu_fix"@, flag(v.mtu_fix));
    let o7 = o6.push(("mtu_fix"@, flag(v.mtu_fix)));
    assert(zone_section(v).options == o7);
}

proof fn lemma_zone_set(v: FirewallZoneView)
    ensures
        lookup(zone_section(v).options, "name"@) == Some(v.id),
        lookup(zone_section(v).options, "enabled"@) == Some(flag(v.enabled)),
        lookup(zone_section(v).options, "input"@) == Some(verdict_name(v.input)),
        lookup(zone_section(v).options, "output"@) == Some(verdict_name(v.output)),
        lookup(zone_section(v).options, "forward"@) == Some(verdict_name(v.forward)),
        lookup(zone_section(v).options, "masq"@) == Some(flag(v.masquerade)),
        lookup(zone_section(v).options, "mtu_fix"@) == Some(flag(v.mtu_fix)),
        lookup(zone_section(v).options, "network"@) is None,
{
    reveal_strlit("name");
    assert(tag("name"@) == (4nat, 'n', 'a', 'e'));
    reveal_strlit("enabled");
    assert(tag("enabled"@) == (7nat, 'e', 'n', 'd'));
    reveal_strlit("input");
    assert(tag("input"@) == (5nat, 'i', 'n', 't'));
    reveal_strlit("output");
    assert(tag("output"@) == (6nat, 'o', 'u', 't'));
    reveal_strlit("forward");
    assert(tag("forward"@) == (7nat, 'f', 'o', 'd'));
    reveal_strlit("masq");
    assert(tag("masq"@) == (4nat, 'm', 'a', 'q'));
    reveal_strlit("mtu_fix");
    assert(tag("mtu_fix"@) == (7nat, 'm', 't', 'x'));
    reveal_strlit("network");
    assert(tag("network"@) == (7nat, 'n', 'e', 'k'));
    lemma_zone_lookup(v, "name"@);
    lemma_zone_lookup(v, "enabled"@);
    lemma_zone_lookup(v, "input"@);
    lemma_zone_lookup(v, "output"@);
    lemma_zone_lookup(v, "forward"@);
    lemma_zone_lookup(v, "masq"@);
    lemma_zone_lookup(v, "mtu_fix"@);
    lemma_zone_lookup(v, "network"@);
}

proof fn lemma_verdict(x: FirewallVerdict)
    ensures
        verdict_word(verdict_name(x)) == Some(x),
{
    reveal_strlit("ACCEPT");
    reveal_strlit("DROP");
    reveal_strlit("REJECT");
    reveal_strlit("accept");
    reveal_strlit("drop");
    reveal_strlit("reject");
    assert(lower_all("ACCEPT"@) =~= "accept"@);
    assert(lower_all("DROP"@) =~= "drop"@);
    assert(lower_all("REJECT"@) =~= "reject"@);
    assert("accept"@[0] == 'a');
    assert("reject"@[0] == 'r');
}

/// Whether a selector is one that the agent gives a section of a type: the marker of the type, and sixteen
/// hexadecimal digits.
pub open spec fn is_agent_selector(selector: Seq<char>, section_type: Seq<char>) -> bool {
    ownership_marker(section_type) matches Some(marker) && starts(selector, marker)
        && is_short_digest(selector.skip(marker.len() as int))
}

proof fn lemma_starts_trans(s: Seq<char>, a: Seq<char>, b: Seq<char>)
    requires
        starts(s, a),
        starts(a, b),
    ensures
        starts(s, b),
{
    assert(s.take(b.len() as int) =~= a.take(b.len() as int));
}

/// Whether a section of a selector and a type belongs to an owner: reserved names are the agent's, and
/// all others the platform's.
pub open spec fn is_owners(
    selector: Seq<char>,
    section_type: Seq<char>,
    ownership: ObjectOwnership,
) -> bool {
    match ownership {
        ObjectOwnership::AgentOwned => is_agent_selector(selector, section_type),
        ObjectOwnership::PlatformNative => !starts(selector, "mbed_"@),
    }
}

proof fn lemma_owned(s: UciSectionView, ownership: ObjectOwnership)
    requires
        is_owners(s.selector, s.section_type, ownership),
    ensures
        ownership_value(s) == Some(ownership),
{
    reveal_strlit("mbed_");
    reveal_strlit("mbed_z_");
    reveal_strlit("mbed_f_");
    reveal_strlit("mbed_r_");
    reveal_strlit("mbed_s_");
    reveal_strlit("mbed_n_");
    if ownership == ObjectOwnership::AgentOwned {
        let marker = ownership_marker(s.section_type)->Some_0;
        assert(marker.take(5) =~= "mbed_"@);
        lemma_starts_trans(s.selector, marker, "mbed_"@);
    }
}

proof fn lemma_plurality(acc: Seq<UciOptionView>, lists: ListsView, names: Seq<Seq<char>>, i: int)
    requires
        0 <= i <= lists.len(),
        has_plurality(acc, names),
        forall|k: int|
            0 <= k < lists.len() ==> names.contains(#[trigger] lists[k].0) || lists[k].1.len() <= 1,
    ensures
        has_plurality(with_lists(acc, lists, i), names),
    decreases lists.len() - i,
{
    if i < lists.len() {
        if lists[i].1.len() > 0 {
            let o = UciOptionView { name: lists[i].0, values: lists[i].1 };
            assert(has_plurality(acc.push(o), names));
            lemma_plurality(acc.push(o), lists, names, i + 1);
        } else {
            lemma_plurality(acc, lists, names, i + 1);
        }
    }
}

proof fn lemma_written_plurality(selector: Seq<char>, r: RenderedSectionView, names: Seq<Seq<char>>)
    requires
        forall|k: int|
            0 <= k < r.lists.len() ==> names.contains(#[trigger] r.lists[k].0) || r.lists[k].1.len()
                <= 1,
    ensures
        has_plurality(written(selector, r).options, names),
{
    reveal(written);
    lemma_plurality(scalars(r.options), r.lists, names, 0);
}

proof fn lemma_written_order(selector: Seq<char>, r: RenderedSectionView)
    ensures
        written(selector, r).section_type == r.section_type,
        written(selector, r).selector == selector,
        written(selector, r).order == 0,
{
    reveal(written);
}

/// A zone that is written is read back as itself, whoever owns it and whatever the defaults are.
pub proof fn law_written_zone_is_read_back(
    selector: Seq<char>,
    v: FirewallZoneView,
    backend: FirewallBackend,
    defaults: Option<ZoneDefaults>,
)
    requires
        is_owners(selector, "zone"@, v.ownership),
    ensures
        object_section(FirewallObjectView::Zone(v), backend) is Ok,
        firewall_object_value(
            written(selector, object_section(FirewallObjectView::Zone(v), backend)->Ok_0),
            defaults,
        ) == Some(FirewallObjectView::Zone(v)),
{
    let r = zone_section(v);
    let s = written(selector, r);
    lemma_written_order(selector, r);
    lemma_owned(s, v.ownership);
    lemma_zone_set(v);
    lemma_written_get(selector, r, "name"@);
    lemma_written_get(selector, r, "enabled"@);
    lemma_written_get(selector, r, "input"@);
    lemma_written_get(selector, r, "output"@);
    lemma_written_get(selector, r, "forward"@);
    lemma_written_get(selector, r, "masq"@);
    lemma_written_get(selector, r, "mtu_fix"@);
    lemma_written_get(selector, r, "network"@);
    lemma_only_list(r.lists);
    assert(s.values("network"@) =~= v.networks);
    assert(plural_options("zone"@)[0] == "network"@);
    lemma_written_plurality(selector, r, plural_options("zone"@));
    lemma_flag(v.enabled);
    lemma_flag(v.masquerade);
    lemma_flag(v.mtu_fix);
    lemma_verdict(v.input);
    lemma_verdict(v.output);
    lemma_verdict(v.forward);
    assert(zone_value(s, defaults, v.ownership) == Some(v));
}

/// The section of a forwarding.
pub open spec fn forwarding_section(v: FirewallForwardingView) -> RenderedSectionView {
    object_section(FirewallObjectView::Forwarding(v), FirewallBackend::Fw4)->Ok_0
}

proof fn lemma_forwarding_lookup(v: FirewallForwardingView, name: Seq<char>)
    ensures
        ({
            let p0 = None::<Seq<char>>;
            let p1 = pick(p0, name == "name"@, Some(v.id));
            let p2 = pick(p1, name == "enabled"@, Some(flag(v.enabled)));
            let p3 = pick(p2, name == "src"@, Some(v.source_zone));
            let p4 = pick(p3, name == "dest"@, Some(v.destination_zone));
            lookup(forwarding_section(v).options, name) == p4
        }),
{
    let o0 = Seq::<(Seq<char>, Seq<char>)>::empty();
    assert(lookup(o0, name) is None);
    lemma_lookup_push(o0, name, "name"@, v.id);
    let o1 = o0.push(("name"@, v.id));
    lemma_lookup_push(o1, name, "enabled"@, flag(v.enabled));
    let o2 = o1.push(("enabled"@, flag(v.enabled)));
    lemma_lookup_push(o2, name, "src"@, v.source_zone);
    let o3 = o2.push(("src"@, v.source_zone));
    lemma_lookup_push(o3, name, "dest"@, v.destination_zone);
    let o4 = o3.push(("dest"@, v.destination_zone));
    assert(forwarding_section(v).options == o4);
}

proof fn lemma_forwarding_set(v: FirewallForwardingView)
    ensures
        lookup(forwarding_section(v).options, "name"@) == Some(v.id),
        lookup(forwarding_section(v).options, "enabled"@) == Some(flag(v.enabled)),
        lookup(forwarding_section(v).options, "src"@) == Some(v.source_zone),
        lookup(forwarding_section(v).options, "dest"@) == Some(v.destination_zone),
{
    reveal_strlit("name");
    assert(tag("name"@) == (4nat, 'n', 'a', 'e'));
    reveal_strlit("enabled");
    assert(tag("enabled"@) == (7nat, 'e', 'n', 'd'));
    reveal_strlit("src");
    assert(tag("src"@) == (3nat, 's', 'r', 'c'));
    reveal_strlit("dest");
    assert(tag("dest"@) == (4nat, 'd', 'e', 't'));
    lemma_forwarding_lookup(v, "name"@);
    lemma_forwarding_lookup(v, "enabled"@);
    lemma_forwarding_lookup(v, "src"@);
    lemma_forwarding_lookup(v, "dest"@);
}

/// A forwarding that is written is read back as itself, whoever owns it.
pub proof fn law_written_forwarding_is_read_back(
    selector: Seq<char>,
    v: FirewallForwardingView,
    backend: FirewallBackend,
    defaults: Option<ZoneDefaults>,
)
    requires
        is_owners(selector, "forwarding"@, v.ownership),
    ensures
        object_section(FirewallObjectView::Forwarding(v), backend) is Ok,
        firewall_object_value(
            written(selector, object_section(FirewallObjectView::Forwarding(v), backend)->Ok_0),
            defaults,
        ) == Some(FirewallObjectView::Forwarding(v)),
{
    let r = forwarding_section(v);
    let s = written(selector, r);
    lemma_written_order(selector, r);
    lemma_owned(s, v.ownership);
    lemma_forwarding_set(v);
    lemma_written_get(selector, r, "name"@);
    lemma_written_get(selector, r, "enabled"@);
    lemma_written_get(selector, r, "src"@);
    lemma_written_get(selector, r, "dest"@);
    reveal_strlit("zone");
    assert(tag("zone"@) == (4nat, 'z', 'o', 'e'));
    reveal_strlit("forwarding");
    assert(tag("forwarding"@) == (10nat, 'f', 'o', 'g'));
    lemma_written_plurality(selector, r, plural_options("forwarding"@));
    lemma_flag(v.enabled);
    assert(forwarding_value(s, v.ownership) == Some(v));
}

proof fn lemma_family(x: FirewallFamily)
    ensures
        family_word(family_name(x)) == Some(x),
{
    reveal_strlit("any");
    assert(tag("any"@) == (3nat, 'a', 'n', 'y'));
    reveal_strlit("ipv4");
    assert(tag("ipv4"@) == (4nat, 'i', 'p', '4'));
    reveal_strlit("ipv6");
    assert(tag("ipv6"@) == (4nat, 'i', 'p', '6'));
    reveal_strlit("*");
    reveal_strlit("4");
    reveal_strlit("6");
    assert("ipv4"@[3] == '4');
    assert("ipv6"@[3] == '6');
}

proof fn lemma_port(p: PortRange)
    ensures
        port_value(port_text(p)) == Some(p),
{
    law_sized_numbers_round_trip(0, p.start, 0);
    law_sized_numbers_round_trip(0, p.end, 0);
    let a = decimal(p.start as nat);
    let b = decimal(p.end as nat);
    lemma_decimal(p.start as nat);
    assert forall|j: int| 0 <= j < a.len() implies a[j] != '-' by {
        assert(is_digit(a[j]));
    }
    if p.start == p.end {
        lemma_find_from(a, '-', 0);
        let k = find_from(a, '-', 0);
        if k < a.len() {
            assert(a[k] == '-');
        }
        assert(split_once(a, '-') is None);
    } else {
        reveal_strlit("-");
        let s = a + "-"@ + b;
        assert(s[a.len() as int] == '-');
        assert forall|j: int| 0 <= j < a.len() implies s[j] != '-' by {
            assert(s[j] == a[j]);
        }
        lemma_find_at(s, '-', 0, a.len() as int);
        assert(s.take(a.len() as int) =~= a);
        assert(s.skip((a.len() + 1) as int) =~= b);
        assert(split_once(s, '-') == Some((a, b)));
    }
}

proof fn lemma_loose(n: IpNetwork)
    ensures
        loose_network(network_format(n)) == Some(n),
{
    lemma_slash(n);
}

/// Whether a text is a hardware address in the form that it is kept in.
pub open spec fn is_plain_mac(s: Seq<char>) -> bool {
    is_mac(s) && lower_all(s) == s
}

proof fn lemma_networks_read(a: Seq<IpNetwork>)
    ensures
        map_all(network_texts(a), |r: Seq<char>| LooseNetworks::value(r)) == Some(a),
{
    let f = |r: Seq<char>| LooseNetworks::value(r);
    let s = network_texts(a);
    assert forall|i: int| 0 <= i < s.len() implies f(#[trigger] s[i]) == Some(a[i]) by {
        lemma_loose(a[i]);
    }
    lemma_map_all(s, f, a);
}

proof fn lemma_ports_read(a: Seq<PortRange>)
    ensures
        map_all(port_texts(a), |r: Seq<char>| Ports::value(r)) == Some(a),
{
    let f = |r: Seq<char>| Ports::value(r);
    let s = port_texts(a);
    assert forall|i: int| 0 <= i < s.len() implies f(#[trigger] s[i]) == Some(a[i]) by {
        lemma_port(a[i]);
    }
    lemma_map_all(s, f, a);
}

proof fn lemma_macs_read(a: Seq<Seq<char>>)
    requires
        forall|i: int| 0 <= i < a.len() ==> is_plain_mac(#[trigger] a[i]),
    ensures
        map_all(a, |r: Seq<char>| Macs::value(r)) == Some(a),
{
    let f = |r: Seq<char>| Macs::value(r);
    assert forall|i: int| 0 <= i < a.len() implies f(#[trigger] a[i]) == Some(a[i]) by {
        assert(is_plain_mac(a[i]));
    }
    lemma_map_all(a, f, a);
}

proof fn lemma_bytes_read(a: Seq<u8>)
    ensures
        map_all(byte_texts(a), |r: Seq<char>| Bytes::value(r)) == Some(a),
{
    let f = |r: Seq<char>| Bytes::value(r);
    let s = byte_texts(a);
    assert forall|i: int| 0 <= i < s.len() implies f(#[trigger] s[i]) == Some(a[i]) by {
        law_sized_numbers_round_trip(a[i], 0, 0);
    }
    lemma_map_all(s, f, a);
}

/// Whether an entry of a set that is a hardware address is one in the form that it is kept in.
pub open spec fn is_plain_entry(e: FirewallSetEntryView) -> bool {
    e matches FirewallSetEntryView::Mac(m) ==> is_plain_mac(m)
}

/// The options of a set.
pub open spec fn set_options(v: FirewallAddressSetView, backend: FirewallBackend) -> OptionsView {
    object_section(FirewallObjectView::AddressSet(v), backend)->Ok_0.options
}

/// The options of a set, with the storage that the older backend asks for.
pub open spec fn storage_of(backend: FirewallBackend) -> Option<Seq<char>> {
    if backend == FirewallBackend::Fw3 {
        Some("hash"@)
    } else {
        None
    }
}

/// The same options, one behind the other.
pub open spec fn set_chain(v: FirewallAddressSetView, backend: FirewallBackend) -> OptionsView {
    put_some(
        Seq::<(Seq<char>, Seq<char>)>::empty().push(("name"@, v.id)).push(
            ("enabled"@, flag(v.enabled)),
        ).push(("family"@, family_name(v.family))),
        "storage"@,
        storage_of(backend),
    )
}

proof fn lemma_set_chain(v: FirewallAddressSetView, backend: FirewallBackend)
    requires
        entry_texts(v.entries) is Some,
    ensures
        set_options(v, backend) == set_chain(v, backend),
{
}

proof fn lemma_set_lookup(v: FirewallAddressSetView, backend: FirewallBackend, name: Seq<char>)
    ensures
        lookup(set_chain(v, backend), name) == pick(
            pick(
                pick(
                    pick(None::<Seq<char>>, name == "name"@, Some(v.id)),
                    name == "enabled"@,
                    Some(flag(v.enabled)),
                ),
                name == "family"@,
                Some(family_name(v.family)),
            ),
            name == "storage"@,
            storage_of(backend),
        ),
{
    let o0 = Seq::<(Seq<char>, Seq<char>)>::empty();
    assert(lookup(o0, name) is None);
    lemma_lookup_push(o0, name, "name"@, v.id);
    let o1 = o0.push(("name"@, v.id));
    lemma_lookup_push(o1, name, "enabled"@, flag(v.enabled));
    let o2 = o1.push(("enabled"@, flag(v.enabled)));
    lemma_lookup_push(o2, name, "family"@, family_name(v.family));
    let o3 = o2.push(("family"@, family_name(v.family)));
    lemma_lookup_put(o3, name, "storage"@, storage_of(backend));
    assert(set_chain(v, backend) == put_some(o3, "storage"@, storage_of(backend)));
}

proof fn lemma_set_gets(selector: Seq<char>, v: FirewallAddressSetView, backend: FirewallBackend)
    requires
        entry_texts(v.entries) is Some,
    ensures
        ({
            let s = written(
                selector,
                object_section(FirewallObjectView::AddressSet(v), backend)->Ok_0,
            );
            &&& s.get("name"@) == Some(seq![v.id])
            &&& s.get("enabled"@) == Some(seq![flag(v.enabled)])
            &&& s.get("family"@) == Some(seq![family_name(v.family)])
            &&& s.get("match"@) == Some(seq![set_match_name(v.entries[0])])
            &&& s.get("entry"@) == Some(entry_texts(v.entries)->Some_0)
        }),
{
    let r = object_section(FirewallObjectView::AddressSet(v), backend)->Ok_0;
    lemma_set_chain(v, backend);
    reveal_strlit("name");
    assert(tag("name"@) == (4nat, 'n', 'a', 'e'));
    reveal_strlit("enabled");
    assert(tag("enabled"@) == (7nat, 'e', 'n', 'd'));
    reveal_strlit("family");
    assert(tag("family"@) == (6nat, 'f', 'a', 'y'));
    reveal_strlit("storage");
    assert(tag("storage"@) == (7nat, 's', 't', 'e'));
    reveal_strlit("match");
    assert(tag("match"@) == (5nat, 'm', 'a', 'h'));
    reveal_strlit("entry");
    assert(tag("entry"@) == (5nat, 'e', 'n', 'y'));
    lemma_set_lookup(v, backend, "name"@);
    lemma_written_get(selector, r, "name"@);
    lemma_set_lookup(v, backend, "enabled"@);
    lemma_written_get(selector, r, "enabled"@);
    lemma_set_lookup(v, backend, "family"@);
    lemma_written_get(selector, r, "family"@);
    lemma_set_lookup(v, backend, "match"@);
    lemma_written_get(selector, r, "match"@);
    lemma_set_lookup(v, backend, "entry"@);
    lemma_written_get(selector, r, "entry"@);
    assert(r.lists[0] == ("match"@, seq![set_match_name(v.entries[0])]));
    assert(r.lists[1].0 == "entry"@);
    assert(list_from(r.lists, "entry"@, 1) == Some(r.lists[1].1));
}

proof fn lemma_entries_read(v: FirewallAddressSetView, s: UciSectionView)
    requires
        entry_texts(v.entries) is Some,
        forall|i: int| 0 <= i < v.entries.len() ==> is_plain_entry(#[trigger] v.entries[i]),
        s.get("match"@) == Some(seq![set_match_name(v.entries[0])]),
        s.get("entry"@) == Some(entry_texts(v.entries)->Some_0),
    ensures
        entries_value(s) == Some(v.entries),
{
    reveal_strlit("src_net");
    assert(tag("src_net"@) == (7nat, 's', 'r', 't'));
    reveal_strlit("src_mac");
    assert(tag("src_mac"@) == (7nat, 's', 'r', 'c'));
    reveal_strlit("src_port");
    assert(tag("src_port"@) == (8nat, 's', 'r', 't'));
    let e = v.entries;
    let t = entry_texts(e)->Some_0;
    let g = |x: FirewallSetEntryView| entry_text(x, e[0]);
    assert(t.len() == e.len());
    assert forall|i: int| 0 <= i < e.len() implies #[trigger] t[i] == entry_text(e[i], e[0])->Some_0
        && entry_text(e[i], e[0]) is Some by {
        assert(g(e[i]) is Some);
    }
    match e[0] {
        FirewallSetEntryView::Network(_) => {
            let f = |r: Seq<char>| NetworkEntries::value(r);
            assert forall|i: int| 0 <= i < t.len() implies f(#[trigger] t[i]) == Some(e[i]) by {
                lemma_loose(e[i]->Network_0);
            }
            lemma_map_all(t, f, e);
        },
        FirewallSetEntryView::Mac(_) => {
            let f = |r: Seq<char>| MacEntries::value(r);
            assert forall|i: int| 0 <= i < t.len() implies f(#[trigger] t[i]) == Some(e[i]) by {
                assert(is_plain_entry(e[i]));
            }
            lemma_map_all(t, f, e);
        },
        FirewallSetEntryView::Port(_) => {
            let f = |r: Seq<char>| PortEntries::value(r);
            assert forall|i: int| 0 <= i < t.len() implies f(#[trigger] t[i]) == Some(e[i]) by {
                lemma_port(e[i]->Port_0);
            }
            lemma_map_all(t, f, e);
        },
    }
}

proof fn lemma_set_type(
    s: UciSectionView,
    defaults: Option<ZoneDefaults>,
    ownership: ObjectOwnership,
)
    requires
        s.section_type == "ipset"@,
        has_plurality(s.options, plural_options("ipset"@)),
        ownership_value(s) == Some(ownership),
    ensures
        firewall_object_value(s, defaults) == (match address_set_value(
            s,
            ownership,
        ) {
            Some(v) => Some(FirewallObjectView::AddressSet(v)),
            None => None,
        }),
{
    reveal_strlit("zone");
    assert(tag("zone"@) == (4nat, 'z', 'o', 'e'));
    reveal_strlit("forwarding");
    assert(tag("forwarding"@) == (10nat, 'f', 'o', 'g'));
    reveal_strlit("rule");
    assert(tag("rule"@) == (4nat, 'r', 'u', 'e'));
    reveal_strlit("ipset");
    assert(tag("ipset"@) == (5nat, 'i', 'p', 't'));
}

/// An address set that is written is read back as itself, whoever owns it and for either backend. Hardware
/// addresses are kept in lower case.
pub proof fn law_written_set_is_read_back(
    selector: Seq<char>,
    v: FirewallAddressSetView,
    backend: FirewallBackend,
    defaults: Option<ZoneDefaults>,
)
    requires
        is_owners(selector, "ipset"@, v.ownership),
        object_section(FirewallObjectView::AddressSet(v), backend) is Ok,
        forall|i: int| 0 <= i < v.entries.len() ==> is_plain_entry(#[trigger] v.entries[i]),
    ensures
        firewall_object_value(
            written(selector, object_section(FirewallObjectView::AddressSet(v), backend)->Ok_0),
            defaults,
        ) == Some(FirewallObjectView::AddressSet(v)),
{
    let r = object_section(FirewallObjectView::AddressSet(v), backend)->Ok_0;
    let s = written(selector, r);
    lemma_written_order(selector, r);
    lemma_owned(s, v.ownership);
    lemma_set_gets(selector, v, backend);
    lemma_entries_read(v, s);
    lemma_flag(v.enabled);
    lemma_family(v.family);
    lemma_set_plural(r, v, backend);
    lemma_written_plurality(selector, r, plural_options("ipset"@));
    lemma_set_type(s, defaults, v.ownership);
    assert(address_set_value(s, v.ownership) == Some(v));
}

proof fn lemma_set_plural(
    r: RenderedSectionView,
    v: FirewallAddressSetView,
    backend: FirewallBackend,
)
    requires
        entry_texts(v.entries) is Some,
        r == object_section(FirewallObjectView::AddressSet(v), backend)->Ok_0,
    ensures
        forall|k: int|
            0 <= k < r.lists.len() ==> plural_options("ipset"@).contains(#[trigger] r.lists[k].0)
                || r.lists[k].1.len() <= 1,
{
    reveal_strlit("zone");
    assert(tag("zone"@) == (4nat, 'z', 'o', 'e'));
    reveal_strlit("rule");
    assert(tag("rule"@) == (4nat, 'r', 'u', 'e'));
    reveal_strlit("ipset");
    assert(tag("ipset"@) == (5nat, 'i', 'p', 't'));
    assert(plural_options("ipset"@)[0] == "entry"@);
}

/// Whether a text is one word: not empty, and without spaces.
pub open spec fn is_word(s: Seq<char>) -> bool {
    s.len() > 0 && forall|i: int| 0 <= i < s.len() ==> !is_ascii_space(#[trigger] s[i])
}

proof fn lemma_word_end(s: Seq<char>, i: int, e: int)
    requires
        0 <= i <= e <= s.len(),
        forall|k: int| i <= k < e ==> !is_ascii_space(#[trigger] s[k]),
        e == s.len() || is_ascii_space(s[e]),
    ensures
        word_end(s, i) == e,
    decreases e - i,
{
    if i < e {
        lemma_word_end(s, i + 1, e);
    }
}

/// A word with more behind a space.
proof fn lemma_word_first(acc: Seq<Seq<char>>, a: Seq<char>, w: Seq<char>, rest: Seq<char>)
    requires
        is_word(w),
    ensures
        words_from(acc, a + w, a.len() as int) == acc.push(w),
        words_from(acc, a + w + seq![' '] + rest, a.len() as int) == words_from(
            acc.push(w),
            a + w + seq![' '] + rest,
            (a + w + seq![' ']).len() as int,
        ),
{
    let s = a + w;
    let i = a.len() as int;
    let e = (a.len() + w.len()) as int;
    assert forall|k: int| i <= k < e implies !is_ascii_space(#[trigger] s[k]) by {
        assert(s[k] == w[k - i]);
    }
    assert(s[i] == w[0]);
    lemma_word_end(s, i, e);
    assert(s.subrange(i, e) =~= w);
    assert(words_from(acc.push(w), s, e) == acc.push(w));
    let t = a + w + seq![' '] + rest;
    assert forall|k: int| i <= k < e implies !is_ascii_space(#[trigger] t[k]) by {
        assert(t[k] == w[k - i]);
    }
    assert(t[i] == w[0]);
    assert(t[e] == ' ');
    lemma_word_end(t, i, e);
    assert(t.subrange(i, e) =~= w);
    assert(skip_spaces(t, e) == skip_spaces(t, e + 1));
    assert((a + w + seq![' ']).len() == e + 1);
    let next = acc.push(w);
    assert(words_from(next, t, e) == words_from(next, t, e + 1)) by {
        lemma_skip_grows(t, e + 1);
    }
}

proof fn lemma_skip_grows(s: Seq<char>, i: int)
    requires
        0 <= i,
    ensures
        i <= skip_spaces(s, i),
    decreases s.len() - i,
{
    if i < s.len() && is_ascii_space(s[i]) {
        lemma_skip_grows(s, i + 1);
    }
}

/// The names of the protocols from `k` on.
pub open spec fn protocol_names(p: Seq<FirewallProtocol>, k: int) -> Seq<Seq<char>> {
    Seq::new((p.len() - k) as nat, |i: int| protocol_name(p[k + i]))
}

/// The names of the protocols from `k` on, with spaces between them.
pub open spec fn spaced(p: Seq<FirewallProtocol>, k: int) -> Seq<char>
    decreases p.len() - k,
{
    if k < 0 || k >= p.len() {
        Seq::empty()
    } else if k == p.len() - 1 {
        protocol_name(p[k])
    } else {
        protocol_name(p[k]) + seq![' '] + spaced(p, k + 1)
    }
}

proof fn lemma_protocols_tail(acc: Seq<char>, p: Seq<FirewallProtocol>, k: int)
    requires
        0 < k <= p.len(),
    ensures
        protocols_text(acc, p, k) == (if k < p.len() {
            acc + seq![' '] + spaced(p, k)
        } else {
            acc
        }),
    decreases p.len() - k,
{
    reveal_strlit(" ");
    assert(" "@ =~= seq![' ']);
    if k < p.len() {
        let next = acc + " "@ + protocol_name(p[k]);
        lemma_protocols_tail(next, p, k + 1);
        if k + 1 < p.len() {
            assert(next + seq![' '] + spaced(p, k + 1) =~= acc + seq![' '] + (protocol_name(p[k])
                + seq![' '] + spaced(p, k + 1)));
        } else {
            assert(next =~= acc + seq![' '] + protocol_name(p[k]));
        }
    }
}

proof fn lemma_protocols(p: Seq<FirewallProtocol>)
    requires
        p.len() > 0,
    ensures
        protocols_text(Seq::empty(), p, 0) == spaced(p, 0),
{
    let first = Seq::<char>::empty() + protocol_name(p[0]);
    assert(first =~= protocol_name(p[0]));
    lemma_protocols_tail(first, p, 1);
}

proof fn lemma_protocol_word(x: FirewallProtocol)
    ensures
        is_word(protocol_name(x)),
        protocol_word(protocol_name(x)) == Some(x),
{
    reveal_strlit("tcp");
    assert(tag("tcp"@) == (3nat, 't', 'c', 'p'));
    reveal_strlit("udp");
    assert(tag("udp"@) == (3nat, 'u', 'd', 'p'));
    reveal_strlit("icmp");
    assert(tag("icmp"@) == (4nat, 'i', 'c', 'p'));
    reveal_strlit("icmpv6");
    assert(tag("icmpv6"@) == (6nat, 'i', 'c', '6'));
    reveal_strlit("esp");
    assert(tag("esp"@) == (3nat, 'e', 's', 'p'));
    reveal_strlit("ah");
    assert(tag("ah"@) == (2nat, 'a', 'h', 'h'));
    reveal_strlit("gre");
    assert(tag("gre"@) == (3nat, 'g', 'r', 'e'));
    reveal_strlit("ipv6-icmp");
    assert(tag("ipv6-icmp"@) == (9nat, 'i', 'p', 'p'));
    let s = protocol_name(x);
    assert forall|i: int| 0 <= i < s.len() implies !is_ascii_space(#[trigger] s[i]) by {
        assert(s.len() <= 6);
        assert(i == 0 || i == 1 || i == 2 || i == 3 || i == 4 || i == 5);
    }
}

proof fn lemma_spaced_words(acc: Seq<Seq<char>>, a: Seq<char>, p: Seq<FirewallProtocol>, k: int)
    requires
        0 <= k < p.len(),
    ensures
        words_from(acc, a + spaced(p, k), a.len() as int) == acc + protocol_names(p, k),
    decreases p.len() - k,
{
    let w = protocol_name(p[k]);
    lemma_protocol_word(p[k]);
    if k == p.len() - 1 {
        lemma_word_first(acc, a, w, Seq::empty());
        assert(acc.push(w) =~= acc + protocol_names(p, k));
    } else {
        let rest = spaced(p, k + 1);
        let b = a + w + seq![' '];
        lemma_word_first(acc, a, w, rest);
        lemma_spaced_words(acc.push(w), b, p, k + 1);
        assert(a + spaced(p, k) =~= b + rest);
        assert(acc.push(w) + protocol_names(p, k + 1) =~= acc + protocol_names(p, k));
    }
}

proof fn lemma_protocols_read(s: UciSectionView, p: Seq<FirewallProtocol>)
    requires
        s.get("proto"@) == one(protocols_value(p)),
    ensures
        protocols_option(s) == Some(p),
{
    let f = |w: Seq<char>| ProtocolWords::value(w);
    let e = Seq::<Seq<char>>::empty();
    let values = s.values("proto"@);
    let all = all_words(e, values, 0);
    if p.len() > 0 {
        lemma_protocols(p);
        lemma_spaced_words(e, Seq::empty(), p, 0);
        assert(Seq::<char>::empty() + spaced(p, 0) =~= spaced(p, 0));
        assert(values[0] == spaced(p, 0));
        assert(words(values[0]) =~= protocol_names(p, 0));
        assert(all_words(e + words(values[0]), values, 1) == e + words(values[0]));
        assert(all =~= protocol_names(p, 0));
        assert forall|i: int| 0 <= i < all.len() implies f(#[trigger] all[i]) == Some(p[i]) by {
            lemma_protocol_word(p[i]);
        }
    } else {
        assert(all =~= e);
    }
    lemma_map_all(all, f, p);
}

proof fn lemma_two_words(w: Seq<char>, last: Seq<char>)
    requires
        is_word(w),
        is_word(last),
    ensures
        words(w + seq![' '] + last) == seq![w, last],
{
    let e = Seq::<Seq<char>>::empty();
    let none = Seq::<char>::empty();
    lemma_word_first(e, none, w, last);
    assert(none + w + seq![' '] + last =~= w + seq![' '] + last);
    assert((none + w + seq![' ']).len() == w.len() + 1);
    let a = w + seq![' '];
    lemma_word_first(e.push(w), a, last, none);
    assert(e.push(w).push(last) =~= seq![w, last]);
}

/// The set that a rule matches, with the side that it matches on.
pub open spec fn set_text(m: FirewallMatchView) -> Option<Seq<char>> {
    if m.source_sets.len() > 0 {
        Some(m.source_sets[0] + " src"@)
    } else if m.destination_sets.len() > 0 {
        Some(m.destination_sets[0] + " dest"@)
    } else {
        None
    }
}

/// Whether the names of sets are words.
pub open spec fn has_plain_sets(m: FirewallMatchView) -> bool {
    (forall|i: int| 0 <= i < m.source_sets.len() ==> is_word(#[trigger] m.source_sets[i])) && (forall|
        i: int,
    |
        0 <= i < m.destination_sets.len() ==> is_word(#[trigger] m.destination_sets[i]))
}

proof fn lemma_set_read(s: UciSectionView, m: FirewallMatchView)
    requires
        has_plain_sets(m),
        m.source_sets.len() + m.destination_sets.len() <= 1,
        s.get("ipset"@) == one(set_text(m)),
    ensures
        set_option(s) is Some,
        match set_option(s)->Some_0 {
            Some((id, true)) => m.source_sets == seq![id] && m.destination_sets.len() == 0,
            Some((id, false)) => m.destination_sets == seq![id] && m.source_sets.len() == 0,
            None => m.source_sets.len() == 0 && m.destination_sets.len() == 0,
        },
{
    reveal_strlit("src");
    assert(tag("src"@) == (3nat, 's', 'r', 'c'));
    reveal_strlit("dest");
    assert(tag("dest"@) == (4nat, 'd', 'e', 't'));
    reveal_strlit(" src");
    reveal_strlit(" dest");
    assert(" src"@ =~= seq![' '] + "src"@);
    assert(" dest"@ =~= seq![' '] + "dest"@);
    assert("src"@[2] == 'c');
    assert("dest"@[2] == 's');
    assert("dest"@[3] == 't');
    assert(is_word("src"@));
    assert(is_word("dest"@));
    if m.source_sets.len() > 0 {
        let w = m.source_sets[0];
        assert(is_word(w));
        lemma_two_words(w, "src"@);
        assert(w + " src"@ =~= w + seq![' '] + "src"@);
        assert(m.source_sets =~= seq![w]);
    } else if m.destination_sets.len() > 0 {
        let w = m.destination_sets[0];
        assert(is_word(w));
        lemma_two_words(w, "dest"@);
        assert(w + " dest"@ =~= w + seq![' '] + "dest"@);
        assert(m.destination_sets =~= seq![w]);
    }
}

/// The zone that a rule comes from, where one is written.
pub open spec fn source_of(v: FirewallFilterRuleView) -> Option<Seq<char>> {
    if v.direction == FirewallDirection::Output {
        None
    } else {
        first_of(v.matches.source_zones)
    }
}

/// The zone that a rule goes to, where one is written.
pub open spec fn target_of(v: FirewallFilterRuleView) -> Option<Seq<char>> {
    if v.direction == FirewallDirection::Input {
        None
    } else {
        first_of(v.matches.destination_zones)
    }
}

/// The device of a rule, where one is written.
pub open spec fn device_of(v: FirewallFilterRuleView) -> Option<Seq<char>> {
    match v.direction {
        FirewallDirection::Input => first_of(v.matches.input_interfaces),
        FirewallDirection::Output => first_of(v.matches.output_interfaces),
        FirewallDirection::Forward => None,
    }
}

/// The direction of a rule, where one is written.
pub open spec fn way_of(v: FirewallFilterRuleView) -> Option<Seq<char>> {
    if device_of(v) is None {
        None
    } else if v.direction == FirewallDirection::Input {
        Some("in"@)
    } else {
        Some("out"@)
    }
}

pub open spec fn rate_of(v: FirewallFilterRuleView) -> Option<Seq<char>> {
    match v.rate_limit {
        Some(l) => Some(decimal(l.packets_per_second as nat) + "/second"@),
        None => None,
    }
}

pub open spec fn burst_of(v: FirewallFilterRuleView) -> Option<Seq<char>> {
    match v.rate_limit {
        Some(l) => Some(decimal(l.burst as nat)),
        None => None,
    }
}

pub open spec fn log_of(v: FirewallFilterRuleView) -> Option<Seq<char>> {
    match v.log {
        Some(l) => Some(l.prefix),
        None => None,
    }
}

/// The options of a rule, one behind the other.
pub open spec fn filter_options(v: FirewallFilterRuleView) -> OptionsView {
    let o0 = Seq::<(Seq<char>, Seq<char>)>::empty();
    let o1 = o0.push(("name"@, v.id));
    let o2 = o1.push(("enabled"@, flag(v.enabled)));
    let o3 = o2.push(("family"@, family_name(v.matches.family)));
    let o4 = o3.push(("target"@, verdict_name(v.verdict)));
    let o5 = put_some(o4, "src"@, source_of(v));
    let o6 = put_some(o5, "dest"@, target_of(v));
    let o7 = put_some(o6, "device"@, device_of(v));
    let o8 = put_some(o7, "direction"@, way_of(v));
    let o9 = put_some(o8, "proto"@, protocols_value(v.matches.protocols));
    let o10 = put_some(o9, "ipset"@, set_text(v.matches));
    let o11 = put_some(o10, "limit"@, rate_of(v));
    let o12 = put_some(o11, "limit_burst"@, burst_of(v));
    let o13 = put_some(o12, "log"@, log_of(v));
    o13
}

proof fn lemma_filter_options(v: FirewallFilterRuleView)
    requires
        filter_rule_section(v) is Ok,
    ensures
        filter_rule_section(v)->Ok_0.options == filter_options(v),
{
    let o4 = seq![
        ("name"@, v.id),
        ("enabled"@, flag(v.enabled)),
        ("family"@, family_name(v.matches.family)),
        ("target"@, verdict_name(v.verdict)),
    ];
    let p = placed(o4, v.direction, v.matches);
    assert(p is Ok);
    let o8 = put_some(
        put_some(
            put_some(put_some(o4, "src"@, source_of(v)), "dest"@, target_of(v)),
            "device"@,
            device_of(v),
        ),
        "direction"@,
        way_of(v),
    );
    assert(p->Ok_0 == o8);
    let o9 = put_some(o8, "proto"@, protocols_value(v.matches.protocols));
    let q = with_set(o9, v.matches);
    assert(q is Ok);
    assert(q->Ok_0 == put_some(o9, "ipset"@, set_text(v.matches)));
}

proof fn lemma_filter_lookup(v: FirewallFilterRuleView, name: Seq<char>)
    ensures
        ({
            let p0 = None::<Seq<char>>;
            let p1 = pick(p0, name == "name"@, Some(v.id));
            let p2 = pick(p1, name == "enabled"@, Some(flag(v.enabled)));
            let p3 = pick(p2, name == "family"@, Some(family_name(v.matches.family)));
            let p4 = pick(p3, name == "target"@, Some(verdict_name(v.verdict)));
            let p5 = pick(p4, name == "src"@, source_of(v));
            let p6 = pick(p5, name == "dest"@, target_of(v));
            let p7 = pick(p6, name == "device"@, device_of(v));
            let p8 = pick(p7, name == "direction"@, way_of(v));
            let p9 = pick(p8, name == "proto"@, protocols_value(v.matches.protocols));
            let p10 = pick(p9, name == "ipset"@, set_text(v.matches));
            let p11 = pick(p10, name == "limit"@, rate_of(v));
            let p12 = pick(p11, name == "limit_burst"@, burst_of(v));
            let p13 = pick(p12, name == "log"@, log_of(v));
            lookup(filter_options(v), name) == p13
        }),
{
    let o0 = Seq::<(Seq<char>, Seq<char>)>::empty();
    assert(lookup(o0, name) is None);
    lemma_lookup_push(o0, name, "name"@, v.id);
    let o1 = o0.push(("name"@, v.id));
    lemma_lookup_push(o1, name, "enabled"@, flag(v.enabled));
    let o2 = o1.push(("enabled"@, flag(v.enabled)));
    lemma_lookup_push(o2, name, "family"@, family_name(v.matches.family));
    let o3 = o2.push(("family"@, family_name(v.matches.family)));
    lemma_lookup_push(o3, name, "target"@, verdict_name(v.verdict));
    let o4 = o3.push(("target"@, verdict_name(v.verdict)));
    lemma_lookup_put(o4, name, "src"@, source_of(v));
    let o5 = put_some(o4, "src"@, source_of(v));
    lemma_lookup_put(o5, name, "dest"@, target_of(v));
    let o6 = put_some(o5, "dest"@, target_of(v));
    lemma_lookup_put(o6, name, "device"@, device_of(v));
    let o7 = put_some(o6, "device"@, device_of(v));
    lemma_lookup_put(o7, name, "direction"@, way_of(v));
    let o8 = put_some(o7, "direction"@, way_of(v));
    lemma_lookup_put(o8, name, "proto"@, protocols_value(v.matches.protocols));
    let o9 = put_some(o8, "proto"@, protocols_value(v.matches.protocols));
    lemma_lookup_put(o9, name, "ipset"@, set_text(v.matches));
    let o10 = put_some(o9, "ipset"@, set_text(v.matches));
    lemma_lookup_put(o10, name, "limit"@, rate_of(v));
    let o11 = put_some(o10, "limit"@, rate_of(v));
    lemma_lookup_put(o11, name, "limit_burst"@, burst_of(v));
    let o12 = put_some(o11, "limit_burst"@, burst_of(v));
    lemma_lookup_put(o12, name, "log"@, log_of(v));
    let o13 = put_some(o12, "log"@, log_of(v));
    assert(filter_options(v) == o13);
}

proof fn lemma_filter_set(v: FirewallFilterRuleView)
    ensures
        lookup(filter_options(v), "name"@) == Some(v.id),
        lookup(filter_options(v), "enabled"@) == Some(flag(v.enabled)),
        lookup(filter_options(v), "family"@) == Some(family_name(v.matches.family)),
        lookup(filter_options(v), "target"@) == Some(verdict_name(v.verdict)),
        lookup(filter_options(v), "src"@) == source_of(v),
        lookup(filter_options(v), "dest"@) == target_of(v),
        lookup(filter_options(v), "device"@) == device_of(v),
        lookup(filter_options(v), "direction"@) == way_of(v),
        lookup(filter_options(v), "proto"@) == protocols_value(v.matches.protocols),
        lookup(filter_options(v), "ipset"@) == set_text(v.matches),
        lookup(filter_options(v), "limit"@) == rate_of(v),
        lookup(filter_options(v), "limit_burst"@) == burst_of(v),
        lookup(filter_options(v), "log"@) == log_of(v),
{
    reveal_strlit("name");
    assert(tag("name"@) == (4nat, 'n', 'a', 'e'));
    reveal_strlit("enabled");
    assert(tag("enabled"@) == (7nat, 'e', 'n', 'd'));
    reveal_strlit("family");
    assert(tag("family"@) == (6nat, 'f', 'a', 'y'));
    reveal_strlit("target");
    assert(tag("target"@) == (6nat, 't', 'a', 't'));
    reveal_strlit("src");
    assert(tag("src"@) == (3nat, 's', 'r', 'c'));
    reveal_strlit("dest");
    assert(tag("dest"@) == (4nat, 'd', 'e', 't'));
    reveal_strlit("device");
    assert(tag("device"@) == (6nat, 'd', 'e', 'e'));
    reveal_strlit("direction");
    assert(tag("direction"@) == (9nat, 'd', 'i', 'n'));
    reveal_strlit("proto");
    assert(tag("proto"@) == (5nat, 'p', 'r', 'o'));
    reveal_strlit("ipset");
    assert(tag("ipset"@) == (5nat, 'i', 'p', 't'));
    reveal_strlit("limit");
    assert(tag("limit"@) == (5nat, 'l', 'i', 't'));
    reveal_strlit("limit_burst");
    assert(tag("limit_burst"@) == (11nat, 'l', 'i', 't'));
    reveal_strlit("log");
    assert(tag("log"@) == (3nat, 'l', 'o', 'g'));
    lemma_filter_lookup(v, "name"@);
    lemma_filter_lookup(v, "enabled"@);
    lemma_filter_lookup(v, "family"@);
    lemma_filter_lookup(v, "target"@);
    lemma_filter_lookup(v, "src"@);
    lemma_filter_lookup(v, "dest"@);
    lemma_filter_lookup(v, "device"@);
    lemma_filter_lookup(v, "direction"@);
    lemma_filter_lookup(v, "proto"@);
    lemma_filter_lookup(v, "ipset"@);
    lemma_filter_lookup(v, "limit"@);
    lemma_filter_lookup(v, "limit_burst"@);
    lemma_filter_lookup(v, "log"@);
}

proof fn lemma_filter_unset(v: FirewallFilterRuleView)
    ensures
        lookup(filter_options(v), "src_ip"@) is None,
        lookup(filter_options(v), "dest_ip"@) is None,
        lookup(filter_options(v), "src_mac"@) is None,
        lookup(filter_options(v), "src_port"@) is None,
        lookup(filter_options(v), "dest_port"@) is None,
        lookup(filter_options(v), "icmp_type"@) is None,
{
    reveal_strlit("name");
    assert(tag("name"@) == (4nat, 'n', 'a', 'e'));
    reveal_strlit("enabled");
    assert(tag("enabled"@) == (7nat, 'e', 'n', 'd'));
    reveal_strlit("family");
    assert(tag("family"@) == (6nat, 'f', 'a', 'y'));
    reveal_strlit("target");
    assert(tag("target"@) == (6nat, 't', 'a', 't'));
    reveal_strlit("src");
    assert(tag("src"@) == (3nat, 's', 'r', 'c'));
    reveal_strlit("dest");
    assert(tag("dest"@) == (4nat, 'd', 'e', 't'));
    reveal_strlit("device");
    assert(tag("device"@) == (6nat, 'd', 'e', 'e'));
    reveal_strlit("direction");
    assert(tag("direction"@) == (9nat, 'd', 'i', 'n'));
    reveal_strlit("proto");
    assert(tag("proto"@) == (5nat, 'p', 'r', 'o'));
    reveal_strlit("ipset");
    assert(tag("ipset"@) == (5nat, 'i', 'p', 't'));
    reveal_strlit("limit");
    assert(tag("limit"@) == (5nat, 'l', 'i', 't'));
    reveal_strlit("limit_burst");
    assert(tag("limit_burst"@) == (11nat, 'l', 'i', 't'));
    reveal_strlit("log");
    assert(tag("log"@) == (3nat, 'l', 'o', 'g'));
    reveal_strlit("src_ip");
    assert(tag("src_ip"@) == (6nat, 's', 'r', 'p'));
    reveal_strlit("dest_ip");
    assert(tag("dest_ip"@) == (7nat, 'd', 'e', 'p'));
    reveal_strlit("src_mac");
    assert(tag("src_mac"@) == (7nat, 's', 'r', 'c'));
    reveal_strlit("src_port");
    assert(tag("src_port"@) == (8nat, 's', 'r', 't'));
    reveal_strlit("dest_port");
    assert(tag("dest_port"@) == (9nat, 'd', 'e', 't'));
    reveal_strlit("icmp_type");
    assert(tag("icmp_type"@) == (9nat, 'i', 'c', 'e'));
    lemma_filter_lookup(v, "src_ip"@);
    lemma_filter_lookup(v, "dest_ip"@);
    lemma_filter_lookup(v, "src_mac"@);
    lemma_filter_lookup(v, "src_port"@);
    lemma_filter_lookup(v, "dest_port"@);
    lemma_filter_lookup(v, "icmp_type"@);
}

proof fn lemma_list_push(
    lists: ListsView,
    key: Seq<char>,
    values: Seq<Seq<char>>,
    name: Seq<char>,
    i: int,
)
    requires
        0 <= i <= lists.len(),
        values.len() > 0,
    ensures
        list_from(lists.push((key, values)), name, i) == pick_list(
            list_from(lists, name, i),
            key == name,
            values,
        ),
    decreases lists.len() - i,
{
    let more = lists.push((key, values));
    if i < lists.len() {
        assert(more[i] == lists[i]);
        lemma_list_push(lists, key, values, name, i + 1);
    } else {
        assert(more[i] == (key, values));
        assert(list_from(more, name, i + 1) is None);
    }
}

proof fn lemma_list_put(lists: ListsView, key: Seq<char>, values: Seq<Seq<char>>, name: Seq<char>)
    ensures
        list_from(put_list(lists, key, values), name, 0) == pick_list(
            list_from(lists, name, 0),
            key == name,
            values,
        ),
{
    if values.len() > 0 {
        lemma_list_push(lists, key, values, name, 0);
    }
}

proof fn lemma_match_lists(m: FirewallMatchView, name: Seq<char>)
    ensures
        ({
            let p0 = None::<Seq<Seq<char>>>;
            let p1 = pick_list(p0, "src_ip"@ == name, network_texts(m.source_networks));
            let p2 = pick_list(p1, "dest_ip"@ == name, network_texts(m.destination_networks));
            let p3 = pick_list(p2, "src_mac"@ == name, m.source_macs);
            let p4 = pick_list(p3, "src_port"@ == name, port_texts(m.source_ports));
            let p5 = pick_list(p4, "dest_port"@ == name, port_texts(m.destination_ports));
            let p6 = pick_list(p5, "icmp_type"@ == name, byte_texts(m.icmp_types));
            list_from(match_lists(m), name, 0) == p6
        }),
{
    let l0 = Seq::<(Seq<char>, Seq<Seq<char>>)>::empty();
    assert(list_from(l0, name, 0) is None);
    lemma_list_put(l0, "src_ip"@, network_texts(m.source_networks), name);
    let l1 = put_list(l0, "src_ip"@, network_texts(m.source_networks));
    lemma_list_put(l1, "dest_ip"@, network_texts(m.destination_networks), name);
    let l2 = put_list(l1, "dest_ip"@, network_texts(m.destination_networks));
    lemma_list_put(l2, "src_mac"@, m.source_macs, name);
    let l3 = put_list(l2, "src_mac"@, m.source_macs);
    lemma_list_put(l3, "src_port"@, port_texts(m.source_ports), name);
    let l4 = put_list(l3, "src_port"@, port_texts(m.source_ports));
    lemma_list_put(l4, "dest_port"@, port_texts(m.destination_ports), name);
    let l5 = put_list(l4, "dest_port"@, port_texts(m.destination_ports));
    lemma_list_put(l5, "icmp_type"@, byte_texts(m.icmp_types), name);
    let l6 = put_list(l5, "icmp_type"@, byte_texts(m.icmp_types));
    assert(match_lists(m) == l6);
}

proof fn lemma_match_filled(m: FirewallMatchView)
    ensures
        list_from(match_lists(m), "src_ip"@, 0) == filled(network_texts(m.source_networks)),
        list_from(match_lists(m), "dest_ip"@, 0) == filled(network_texts(m.destination_networks)),
        list_from(match_lists(m), "src_mac"@, 0) == filled(m.source_macs),
        list_from(match_lists(m), "src_port"@, 0) == filled(port_texts(m.source_ports)),
        list_from(match_lists(m), "dest_port"@, 0) == filled(port_texts(m.destination_ports)),
        list_from(match_lists(m), "icmp_type"@, 0) == filled(byte_texts(m.icmp_types)),
{
    reveal_strlit("src_ip");
    assert(tag("src_ip"@) == (6nat, 's', 'r', 'p'));
    reveal_strlit("dest_ip");
    assert(tag("dest_ip"@) == (7nat, 'd', 'e', 'p'));
    reveal_strlit("src_mac");
    assert(tag("src_mac"@) == (7nat, 's', 'r', 'c'));
    reveal_strlit("src_port");
    assert(tag("src_port"@) == (8nat, 's', 'r', 't'));
    reveal_strlit("dest_port");
    assert(tag("dest_port"@) == (9nat, 'd', 'e', 't'));
    reveal_strlit("icmp_type");
    assert(tag("icmp_type"@) == (9nat, 'i', 'c', 'e'));
    lemma_match_lists(m, "src_ip"@);
    lemma_match_lists(m, "dest_ip"@);
    lemma_match_lists(m, "src_mac"@);
    lemma_match_lists(m, "src_port"@);
    lemma_match_lists(m, "dest_port"@);
    lemma_match_lists(m, "icmp_type"@);
}

proof fn lemma_match_scalar(m: FirewallMatchView)
    ensures
        list_from(match_lists(m), "src"@, 0) is None,
        list_from(match_lists(m), "dest"@, 0) is None,
        list_from(match_lists(m), "device"@, 0) is None,
        list_from(match_lists(m), "direction"@, 0) is None,
        list_from(match_lists(m), "proto"@, 0) is None,
        list_from(match_lists(m), "ipset"@, 0) is None,
        list_from(match_lists(m), "limit"@, 0) is None,
        list_from(match_lists(m), "limit_burst"@, 0) is None,
        list_from(match_lists(m), "log"@, 0) is None,
{
    reveal_strlit("src_ip");
    assert(tag("src_ip"@) == (6nat, 's', 'r', 'p'));
    reveal_strlit("dest_ip");
    assert(tag("dest_ip"@) == (7nat, 'd', 'e', 'p'));
    reveal_strlit("src_mac");
    assert(tag("src_mac"@) == (7nat, 's', 'r', 'c'));
    reveal_strlit("src_port");
    assert(tag("src_port"@) == (8nat, 's', 'r', 't'));
    reveal_strlit("dest_port");
    assert(tag("dest_port"@) == (9nat, 'd', 'e', 't'));
    reveal_strlit("icmp_type");
    assert(tag("icmp_type"@) == (9nat, 'i', 'c', 'e'));
    reveal_strlit("src");
    assert(tag("src"@) == (3nat, 's', 'r', 'c'));
    reveal_strlit("dest");
    assert(tag("dest"@) == (4nat, 'd', 'e', 't'));
    reveal_strlit("device");
    assert(tag("device"@) == (6nat, 'd', 'e', 'e'));
    reveal_strlit("direction");
    assert(tag("direction"@) == (9nat, 'd', 'i', 'n'));
    reveal_strlit("proto");
    assert(tag("proto"@) == (5nat, 'p', 'r', 'o'));
    reveal_strlit("ipset");
    assert(tag("ipset"@) == (5nat, 'i', 'p', 't'));
    reveal_strlit("limit");
    assert(tag("limit"@) == (5nat, 'l', 'i', 't'));
    reveal_strlit("limit_burst");
    assert(tag("limit_burst"@) == (11nat, 'l', 'i', 't'));
    reveal_strlit("log");
    assert(tag("log"@) == (3nat, 'l', 'o', 'g'));
    lemma_match_lists(m, "src"@);
    lemma_match_lists(m, "dest"@);
    lemma_match_lists(m, "device"@);
    lemma_match_lists(m, "direction"@);
    lemma_match_lists(m, "proto"@);
    lemma_match_lists(m, "ipset"@);
    lemma_match_lists(m, "limit"@);
    lemma_match_lists(m, "limit_burst"@);
    lemma_match_lists(m, "log"@);
}

proof fn lemma_filter_gets(selector: Seq<char>, v: FirewallFilterRuleView)
    requires
        filter_rule_section(v) is Ok,
    ensures
        ({
            let s = written(selector, filter_rule_section(v)->Ok_0);
            let m = v.matches;
            &&& s.get("name"@) == Some(seq![v.id])
            &&& s.get("enabled"@) == Some(seq![flag(v.enabled)])
            &&& s.get("family"@) == Some(seq![family_name(v.matches.family)])
            &&& s.get("target"@) == Some(seq![verdict_name(v.verdict)])
            &&& s.get("src"@) == one(source_of(v))
            &&& s.get("dest"@) == one(target_of(v))
            &&& s.get("device"@) == one(device_of(v))
            &&& s.get("direction"@) == one(way_of(v))
            &&& s.get("proto"@) == one(protocols_value(v.matches.protocols))
            &&& s.get("ipset"@) == one(set_text(v.matches))
            &&& s.get("limit"@) == one(rate_of(v))
            &&& s.get("limit_burst"@) == one(burst_of(v))
            &&& s.get("log"@) == one(log_of(v))
            &&& s.values("src_ip"@) == network_texts(m.source_networks)
            &&& s.values("dest_ip"@) == network_texts(m.destination_networks)
            &&& s.values("src_mac"@) == m.source_macs
            &&& s.values("src_port"@) == port_texts(m.source_ports)
            &&& s.values("dest_port"@) == port_texts(m.destination_ports)
            &&& s.values("icmp_type"@) == byte_texts(m.icmp_types)
        }),
{
    let r = filter_rule_section(v)->Ok_0;
    let m = v.matches;
    let s = written(selector, r);
    lemma_filter_options(v);
    lemma_filter_set(v);
    lemma_filter_unset(v);
    lemma_match_filled(m);
    lemma_match_scalar(m);
    assert(r.lists == match_lists(m));
    lemma_written_get(selector, r, "name"@);
    lemma_written_get(selector, r, "enabled"@);
    lemma_written_get(selector, r, "family"@);
    lemma_written_get(selector, r, "target"@);
    lemma_written_get(selector, r, "src"@);
    lemma_written_get(selector, r, "dest"@);
    lemma_written_get(selector, r, "device"@);
    lemma_written_get(selector, r, "direction"@);
    lemma_written_get(selector, r, "proto"@);
    lemma_written_get(selector, r, "ipset"@);
    lemma_written_get(selector, r, "limit"@);
    lemma_written_get(selector, r, "limit_burst"@);
    lemma_written_get(selector, r, "log"@);
    lemma_written_get(selector, r, "src_ip"@);
    lemma_written_get(selector, r, "dest_ip"@);
    lemma_written_get(selector, r, "src_mac"@);
    lemma_written_get(selector, r, "src_port"@);
    lemma_written_get(selector, r, "dest_port"@);
    lemma_written_get(selector, r, "icmp_type"@);
    assert(s.values("src_ip"@) =~= network_texts(m.source_networks));
    assert(s.values("dest_ip"@) =~= network_texts(m.destination_networks));
    assert(s.values("src_mac"@) =~= m.source_macs);
    assert(s.values("src_port"@) =~= port_texts(m.source_ports));
    assert(s.values("dest_port"@) =~= port_texts(m.destination_ports));
    assert(s.values("icmp_type"@) =~= byte_texts(m.icmp_types));
}

/// What an inspection can tell of a rule: its direction shows in its zones or in its device, what it
/// refers to by name is a word, hardware addresses are in lower case, and no kind of rejection is
/// named.
pub open spec fn is_plain_rule(v: FirewallFilterRuleView) -> bool {
    &&& v.reject_with is None
    &&& has_plain_sets(v.matches)
    &&& forall|i: int|
        0 <= i < v.matches.source_macs.len() ==> is_plain_mac(#[trigger] v.matches.source_macs[i])
    &&& v.direction == FirewallDirection::Output ==> device_of(v) is Some
        || v.matches.destination_zones.len() > 0
    &&& v.direction == FirewallDirection::Forward ==> v.matches.source_zones.len() > 0
        && v.matches.destination_zones.len() > 0
}

proof fn lemma_limit(s: UciSectionView, v: FirewallFilterRuleView)
    requires
        s.get("limit"@) == one(rate_of(v)),
        s.get("limit_burst"@) == one(burst_of(v)),
    ensures
        limit_value(s) == Some(v.rate_limit),
{
    if let Some(l) = v.rate_limit {
        reveal_strlit("/second");
        law_sized_numbers_round_trip(0, 0, l.packets_per_second);
        law_sized_numbers_round_trip(0, 0, l.burst);
        let a = decimal(l.packets_per_second as nat);
        let t = a + "/second"@;
        assert(t.skip(t.len() - 7) =~= "/second"@);
        assert(t.take(t.len() - 7) =~= a);
    }
}

proof fn lemma_zones(a: Seq<Seq<char>>)
    requires
        a.len() <= 1,
    ensures
        list_of(first_of(a)) == a,
{
    assert(list_of(first_of(a)) =~= a);
}

/// The matches of a rule without its devices.
pub open spec fn undirected(v: FirewallFilterRuleView) -> FirewallMatchView {
    FirewallMatchView { input_interfaces: Seq::empty(), output_interfaces: Seq::empty(), ..v.matches }
}

proof fn lemma_matches_read(s: UciSectionView, v: FirewallFilterRuleView)
    requires
        filter_rule_section(v) is Ok,
        is_plain_rule(v),
        s.get("family"@) == Some(seq![family_name(v.matches.family)]),
        s.get("src"@) == one(source_of(v)),
        s.get("dest"@) == one(target_of(v)),
        s.get("proto"@) == one(protocols_value(v.matches.protocols)),
        s.get("ipset"@) == one(set_text(v.matches)),
        s.values("src_ip"@) == network_texts(v.matches.source_networks),
        s.values("dest_ip"@) == network_texts(v.matches.destination_networks),
        s.values("src_mac"@) == v.matches.source_macs,
        s.values("src_port"@) == port_texts(v.matches.source_ports),
        s.values("dest_port"@) == port_texts(v.matches.destination_ports),
        s.values("icmp_type"@) == byte_texts(v.matches.icmp_types),
    ensures
        common_matches(s) == Some(undirected(v)),
{
    let m = v.matches;
    lemma_family(m.family);
    lemma_networks_read(m.source_networks);
    lemma_networks_read(m.destination_networks);
    lemma_macs_read(m.source_macs);
    lemma_protocols_read(s, m.protocols);
    lemma_ports_read(m.source_ports);
    lemma_ports_read(m.destination_ports);
    lemma_bytes_read(m.icmp_types);
    lemma_set_read(s, m);
    lemma_zones(m.source_zones);
    lemma_zones(m.destination_zones);
    assert(list_of(s.scalar("src"@)) =~= m.source_zones);
    assert(list_of(s.scalar("dest"@)) =~= m.destination_zones);
    assert(common_matches(s)->Some_0 =~= undirected(v));
}

/// What a rule that can be written says of its devices and zones.
pub open spec fn is_placed(v: FirewallFilterRuleView) -> bool {
    let m = v.matches;
    &&& m.input_interfaces.len() <= 1 && m.output_interfaces.len() <= 1
    &&& v.direction == FirewallDirection::Input ==> m.destination_zones.len() == 0
        && m.output_interfaces.len() == 0
    &&& v.direction == FirewallDirection::Output ==> m.source_zones.len() == 0
        && m.input_interfaces.len() == 0
    &&& v.direction == FirewallDirection::Forward ==> m.input_interfaces.len() == 0
        && m.output_interfaces.len() == 0
}

proof fn lemma_placed(v: FirewallFilterRuleView)
    requires
        filter_rule_section(v) is Ok,
    ensures
        is_placed(v),
{
}

proof fn lemma_directed(s: UciSectionView, v: FirewallFilterRuleView)
    requires
        is_placed(v),
        is_plain_rule(v),
        s.get("device"@) == one(device_of(v)),
        s.get("direction"@) == one(way_of(v)),
    ensures
        directed(s, undirected(v)) == Some((v.direction, v.matches)),
{
    reveal_strlit("in");
    reveal_strlit("out");
    let m = v.matches;
    let u = undirected(v);
    assert(s.scalar("device"@) == device_of(v));
    assert(s.scalar("direction"@) == way_of(v));
    if let Some(d) = device_of(v) {
        if v.direction == FirewallDirection::Input {
            assert(u.input_interfaces.push(d) =~= m.input_interfaces);
            assert(u.output_interfaces =~= m.output_interfaces);
            assert(FirewallMatchView { input_interfaces: u.input_interfaces.push(d), ..u } == m);
            assert(way_of(v) == Some("in"@));
            assert(directed(s, u) == Some((v.direction, m)));
        } else {
            assert(v.direction == FirewallDirection::Output);
            assert(u.output_interfaces.push(d) =~= m.output_interfaces);
            assert(u.input_interfaces =~= m.input_interfaces);
            assert(FirewallMatchView { output_interfaces: u.output_interfaces.push(d), ..u } == m);
            assert(way_of(v) == Some("out"@));
            assert("out"@.len() != "in"@.len());
            assert(directed(s, u) == Some((v.direction, m)));
        }
    } else {
        assert(u.input_interfaces =~= m.input_interfaces);
        assert(u.output_interfaces =~= m.output_interfaces);
        assert(u == m);
        assert(way_of(v) is None);
        assert(directed(s, u) == Some((v.direction, m)));
    }
}

proof fn lemma_rule_type(
    s: UciSectionView,
    defaults: Option<ZoneDefaults>,
    ownership: ObjectOwnership,
)
    requires
        s.section_type == "rule"@,
        has_plurality(s.options, plural_options("rule"@)),
        ownership_value(s) == Some(ownership),
    ensures
        firewall_object_value(s, defaults) == (match filter_rule_value(
            s,
            ownership,
        ) {
            Some(v) => Some(FirewallObjectView::FilterRule(v)),
            None => None,
        }),
{
    reveal_strlit("zone");
    assert(tag("zone"@) == (4nat, 'z', 'o', 'e'));
    reveal_strlit("forwarding");
    assert(tag("forwarding"@) == (10nat, 'f', 'o', 'g'));
    reveal_strlit("rule");
    assert(tag("rule"@) == (4nat, 'r', 'u', 'e'));
}

proof fn lemma_rule_plural(m: FirewallMatchView)
    ensures
        forall|k: int|
            0 <= k < match_lists(m).len() ==> plural_options("rule"@).contains(
                #[trigger] match_lists(m)[k].0,
            ),
{
    reveal_strlit("zone");
    assert(tag("zone"@) == (4nat, 'z', 'o', 'e'));
    reveal_strlit("rule");
    assert(tag("rule"@) == (4nat, 'r', 'u', 'e'));
    let names = plural_options("rule"@);
    assert(names[0] == "src_ip"@ && names[1] == "src_mac"@ && names[2] == "src_port"@ && names[3]
        == "dest_ip"@ && names[4] == "dest_port"@ && names[5] == "icmp_type"@);
    let l0 = Seq::<(Seq<char>, Seq<Seq<char>>)>::empty();
    let l1 = put_list(l0, "src_ip"@, network_texts(m.source_networks));
    assert(forall|k: int| 0 <= k < l1.len() ==> names.contains(#[trigger] l1[k].0));
    let l2 = put_list(l1, "dest_ip"@, network_texts(m.destination_networks));
    assert(forall|k: int| 0 <= k < l2.len() ==> names.contains(#[trigger] l2[k].0));
    let l3 = put_list(l2, "src_mac"@, m.source_macs);
    assert(forall|k: int| 0 <= k < l3.len() ==> names.contains(#[trigger] l3[k].0));
    let l4 = put_list(l3, "src_port"@, port_texts(m.source_ports));
    assert(forall|k: int| 0 <= k < l4.len() ==> names.contains(#[trigger] l4[k].0));
    let l5 = put_list(l4, "dest_port"@, port_texts(m.destination_ports));
    assert(forall|k: int| 0 <= k < l5.len() ==> names.contains(#[trigger] l5[k].0));
    let l6 = put_list(l5, "icmp_type"@, byte_texts(m.icmp_types));
    assert(forall|k: int| 0 <= k < l6.len() ==> names.contains(#[trigger] l6[k].0));
    assert(match_lists(m) == l6);
}

/// A filter rule that is written is read back as itself, whoever owns it, but for its order, which is the
/// place of its section.
pub proof fn law_written_rule_is_read_back(
    selector: Seq<char>,
    v: FirewallFilterRuleView,
    backend: FirewallBackend,
    defaults: Option<ZoneDefaults>,
)
    requires
        is_owners(selector, "rule"@, v.ownership),
        object_section(FirewallObjectView::FilterRule(v), backend) is Ok,
        is_plain_rule(v),
    ensures
        firewall_object_value(
            written(selector, object_section(FirewallObjectView::FilterRule(v), backend)->Ok_0),
            defaults,
        ) == Some(FirewallObjectView::FilterRule(FirewallFilterRuleView { order: 0, ..v })),
{
    let r = filter_rule_section(v)->Ok_0;
    let s = written(selector, r);
    lemma_written_order(selector, r);
    lemma_owned(s, v.ownership);
    lemma_filter_gets(selector, v);
    lemma_matches_read(s, v);
    lemma_placed(v);
    lemma_directed(s, v);
    lemma_verdict(v.verdict);
    lemma_limit(s, v);
    lemma_flag(v.enabled);
    lemma_rule_plural(v.matches);
    lemma_written_plurality(selector, r, plural_options("rule"@));
    lemma_rule_type(s, defaults, v.ownership);
    assert(filter_rule_value(s, v.ownership) == Some(FirewallFilterRuleView { order: 0, ..v }));
}

/// The target of a rule that translates the source.
pub open spec fn source_target(kind: FirewallNatKind) -> Seq<char> {
    if kind == FirewallNatKind::Masquerade {
        "MASQUERADE"@
    } else {
        "SNAT"@
    }
}

/// Whether a rule translates the source.
pub open spec fn is_source_kind(kind: FirewallNatKind) -> bool {
    kind == FirewallNatKind::SourceNat || kind == FirewallNatKind::Masquerade
}

/// The options of a rule that translates the source, one behind the other.
pub open spec fn source_options(v: FirewallNatRuleView) -> OptionsView {
    let o0 = Seq::<(Seq<char>, Seq<char>)>::empty();
    let o1 = o0.push(("name"@, v.id));
    let o2 = o1.push(("enabled"@, flag(v.enabled)));
    let o3 = o2.push(("family"@, family_name(v.matches.family)));
    let o4 = put_some(o3, "src"@, first_of(v.matches.source_zones));
    let o5 = put_some(o4, "proto"@, protocols_value(v.matches.protocols));
    let o6 = put_some(o5, "src_ip"@, first_network(v.matches.source_networks));
    let o7 = put_some(o6, "src_port"@, first_port(v.matches.source_ports));
    let o8 = put_some(o7, "dest_ip"@, first_network(v.matches.destination_networks));
    let o9 = put_some(o8, "dest_port"@, first_port(v.matches.destination_ports));
    let o10 = put_some(o9, "snat_ip"@, address_of(v.translation_address));
    let o11 = put_some(o10, "snat_port"@, port_of(v.translation_port));
    let o12 = o11.push(("target"@, source_target(v.kind)));
    o12
}

/// The options of a rule that translates the destination, one behind the other.
pub open spec fn redirect_options(v: FirewallNatRuleView) -> OptionsView {
    let o0 = Seq::<(Seq<char>, Seq<char>)>::empty();
    let o1 = o0.push(("name"@, v.id));
    let o2 = o1.push(("enabled"@, flag(v.enabled)));
    let o3 = o2.push(("family"@, family_name(v.matches.family)));
    let o4 = put_some(o3, "src"@, first_of(v.matches.source_zones));
    let o5 = put_some(o4, "proto"@, protocols_value(v.matches.protocols));
    let o6 = put_some(o5, "src_ip"@, first_network(v.matches.source_networks));
    let o7 = put_some(o6, "src_port"@, first_port(v.matches.source_ports));
    let o8 = put_some(o7, "dest"@, first_of(v.matches.destination_zones));
    let o9 = put_some(o8, "src_dip"@, first_network(v.matches.destination_networks));
    let o10 = put_some(o9, "src_dport"@, first_port(v.matches.destination_ports));
    let o11 = put_some(o10, "dest_ip"@, address_of(v.translation_address));
    let o12 = put_some(o11, "dest_port"@, port_of(v.translation_port));
    let o13 = o12.push(("target"@, "DNAT"@));
    let o14 = put_some(o13, "ipset"@, set_text(v.matches));
    o14
}

proof fn lemma_nat_options(v: FirewallNatRuleView)
    requires
        nat_rule_section(v) is Ok,
    ensures
        is_source_kind(v.kind) ==> nat_rule_section(v)->Ok_0.options == source_options(v),
        !is_source_kind(v.kind) ==> nat_rule_section(v)->Ok_0.options == redirect_options(v),
{
    let b = nat_base(v);
    let named = seq![
        ("name"@, v.id),
        ("enabled"@, flag(v.enabled)),
        ("family"@, family_name(v.matches.family)),
    ];
    assert(Seq::<(Seq<char>, Seq<char>)>::empty().push(("name"@, v.id)).push(
        ("enabled"@, flag(v.enabled)),
    ).push(("family"@, family_name(v.matches.family))) == named);
    if !is_source_kind(v.kind) {
        let dest = put_some(b, "dest"@, first_of(v.matches.destination_zones));
        let from = put_some(
            put_some(dest, "src_dip"@, first_network(v.matches.destination_networks)),
            "src_dport"@,
            first_port(v.matches.destination_ports),
        );
        let to = put_some(
            put_some(from, "dest_ip"@, address_of(v.translation_address)),
            "dest_port"@,
            port_of(v.translation_port),
        );
        let q = with_set(to.push(("target"@, "DNAT"@)), v.matches);
        assert(q is Ok);
        assert(q->Ok_0 == put_some(to.push(("target"@, "DNAT"@)), "ipset"@, set_text(v.matches)));
    }
}

proof fn lemma_source_lookup(v: FirewallNatRuleView, name: Seq<char>)
    ensures
        ({
            let p0 = None::<Seq<char>>;
            let p1 = pick(p0, name == "name"@, Some(v.id));
            let p2 = pick(p1, name == "enabled"@, Some(flag(v.enabled)));
            let p3 = pick(p2, name == "family"@, Some(family_name(v.matches.family)));
            let p4 = pick(p3, name == "src"@, first_of(v.matches.source_zones));
            let p5 = pick(p4, name == "proto"@, protocols_value(v.matches.protocols));
            let p6 = pick(p5, name == "src_ip"@, first_network(v.matches.source_networks));
            let p7 = pick(p6, name == "src_port"@, first_port(v.matches.source_ports));
            let p8 = pick(p7, name == "dest_ip"@, first_network(v.matches.destination_networks));
            let p9 = pick(p8, name == "dest_port"@, first_port(v.matches.destination_ports));
            let p10 = pick(p9, name == "snat_ip"@, address_of(v.translation_address));
            let p11 = pick(p10, name == "snat_port"@, port_of(v.translation_port));
            let p12 = pick(p11, name == "target"@, Some(source_target(v.kind)));
            lookup(source_options(v), name) == p12
        }),
{
    let o0 = Seq::<(Seq<char>, Seq<char>)>::empty();
    assert(lookup(o0, name) is None);
    lemma_lookup_push(o0, name, "name"@, v.id);
    let o1 = o0.push(("name"@, v.id));
    lemma_lookup_push(o1, name, "enabled"@, flag(v.enabled));
    let o2 = o1.push(("enabled"@, flag(v.enabled)));
    lemma_lookup_push(o2, name, "family"@, family_name(v.matches.family));
    let o3 = o2.push(("family"@, family_name(v.matches.family)));
    lemma_lookup_put(o3, name, "src"@, first_of(v.matches.source_zones));
    let o4 = put_some(o3, "src"@, first_of(v.matches.source_zones));
    lemma_lookup_put(o4, name, "proto"@, protocols_value(v.matches.protocols));
    let o5 = put_some(o4, "proto"@, protocols_value(v.matches.protocols));
    lemma_lookup_put(o5, name, "src_ip"@, first_network(v.matches.source_networks));
    let o6 = put_some(o5, "src_ip"@, first_network(v.matches.source_networks));
    lemma_lookup_put(o6, name, "src_port"@, first_port(v.matches.source_ports));
    let o7 = put_some(o6, "src_port"@, first_port(v.matches.source_ports));
    lemma_lookup_put(o7, name, "dest_ip"@, first_network(v.matches.destination_networks));
    let o8 = put_some(o7, "dest_ip"@, first_network(v.matches.destination_networks));
    lemma_lookup_put(o8, name, "dest_port"@, first_port(v.matches.destination_ports));
    let o9 = put_some(o8, "dest_port"@, first_port(v.matches.destination_ports));
    lemma_lookup_put(o9, name, "snat_ip"@, address_of(v.translation_address));
    let o10 = put_some(o9, "snat_ip"@, address_of(v.translation_address));
    lemma_lookup_put(o10, name, "snat_port"@, port_of(v.translation_port));
    let o11 = put_some(o10, "snat_port"@, port_of(v.translation_port));
    lemma_lookup_push(o11, name, "target"@, source_target(v.kind));
    let o12 = o11.push(("target"@, source_target(v.kind)));
    assert(source_options(v) == o12);
}

proof fn lemma_source_set(v: FirewallNatRuleView)
    ensures
        lookup(source_options(v), "name"@) == Some(v.id),
        lookup(source_options(v), "enabled"@) == Some(flag(v.enabled)),
        lookup(source_options(v), "family"@) == Some(family_name(v.matches.family)),
        lookup(source_options(v), "src"@) == first_of(v.matches.source_zones),
        lookup(source_options(v), "proto"@) == protocols_value(v.matches.protocols),
        lookup(source_options(v), "src_ip"@) == first_network(v.matches.source_networks),
        lookup(source_options(v), "src_port"@) == first_port(v.matches.source_ports),
        lookup(source_options(v), "dest_ip"@) == first_network(v.matches.destination_networks),
        lookup(source_options(v), "dest_port"@) == first_port(v.matches.destination_ports),
        lookup(source_options(v), "snat_ip"@) == address_of(v.translation_address),
        lookup(source_options(v), "snat_port"@) == port_of(v.translation_port),
        lookup(source_options(v), "target"@) == Some(source_target(v.kind)),
{
    reveal_strlit("name");
    assert(tag("name"@) == (4nat, 'n', 'a', 'e'));
    reveal_strlit("enabled");
    assert(tag("enabled"@) == (7nat, 'e', 'n', 'd'));
    reveal_strlit("family");
    assert(tag("family"@) == (6nat, 'f', 'a', 'y'));
    reveal_strlit("src");
    assert(tag("src"@) == (3nat, 's', 'r', 'c'));
    reveal_strlit("proto");
    assert(tag("proto"@) == (5nat, 'p', 'r', 'o'));
    reveal_strlit("src_ip");
    assert(tag("src_ip"@) == (6nat, 's', 'r', 'p'));
    reveal_strlit("src_port");
    assert(tag("src_port"@) == (8nat, 's', 'r', 't'));
    reveal_strlit("dest_ip");
    assert(tag("dest_ip"@) == (7nat, 'd', 'e', 'p'));
    reveal_strlit("dest_port");
    assert(tag("dest_port"@) == (9nat, 'd', 'e', 't'));
    reveal_strlit("snat_ip");
    assert(tag("snat_ip"@) == (7nat, 's', 'n', 'p'));
    reveal_strlit("snat_port");
    assert(tag("snat_port"@) == (9nat, 's', 'n', 't'));
    reveal_strlit("target");
    assert(tag("target"@) == (6nat, 't', 'a', 't'));
    lemma_source_lookup(v, "name"@);
    lemma_source_lookup(v, "enabled"@);
    lemma_source_lookup(v, "family"@);
    lemma_source_lookup(v, "src"@);
    lemma_source_lookup(v, "proto"@);
    lemma_source_lookup(v, "src_ip"@);
    lemma_source_lookup(v, "src_port"@);
    lemma_source_lookup(v, "dest_ip"@);
    lemma_source_lookup(v, "dest_port"@);
    lemma_source_lookup(v, "snat_ip"@);
    lemma_source_lookup(v, "snat_port"@);
    lemma_source_lookup(v, "target"@);
}

proof fn lemma_source_unset(v: FirewallNatRuleView)
    ensures
        lookup(source_options(v), "dest"@) is None,
        lookup(source_options(v), "ipset"@) is None,
        lookup(source_options(v), "src_mac"@) is None,
        lookup(source_options(v), "icmp_type"@) is None,
{
    reveal_strlit("name");
    assert(tag("name"@) == (4nat, 'n', 'a', 'e'));
    reveal_strlit("enabled");
    assert(tag("enabled"@) == (7nat, 'e', 'n', 'd'));
    reveal_strlit("family");
    assert(tag("family"@) == (6nat, 'f', 'a', 'y'));
    reveal_strlit("src");
    assert(tag("src"@) == (3nat, 's', 'r', 'c'));
    reveal_strlit("proto");
    assert(tag("proto"@) == (5nat, 'p', 'r', 'o'));
    reveal_strlit("src_ip");
    assert(tag("src_ip"@) == (6nat, 's', 'r', 'p'));
    reveal_strlit("src_port");
    assert(tag("src_port"@) == (8nat, 's', 'r', 't'));
    reveal_strlit("dest_ip");
    assert(tag("dest_ip"@) == (7nat, 'd', 'e', 'p'));
    reveal_strlit("dest_port");
    assert(tag("dest_port"@) == (9nat, 'd', 'e', 't'));
    reveal_strlit("snat_ip");
    assert(tag("snat_ip"@) == (7nat, 's', 'n', 'p'));
    reveal_strlit("snat_port");
    assert(tag("snat_port"@) == (9nat, 's', 'n', 't'));
    reveal_strlit("target");
    assert(tag("target"@) == (6nat, 't', 'a', 't'));
    reveal_strlit("dest");
    assert(tag("dest"@) == (4nat, 'd', 'e', 't'));
    reveal_strlit("ipset");
    assert(tag("ipset"@) == (5nat, 'i', 'p', 't'));
    reveal_strlit("src_mac");
    assert(tag("src_mac"@) == (7nat, 's', 'r', 'c'));
    reveal_strlit("icmp_type");
    assert(tag("icmp_type"@) == (9nat, 'i', 'c', 'e'));
    lemma_source_lookup(v, "dest"@);
    lemma_source_lookup(v, "ipset"@);
    lemma_source_lookup(v, "src_mac"@);
    lemma_source_lookup(v, "icmp_type"@);
}

proof fn lemma_redirect_lookup(v: FirewallNatRuleView, name: Seq<char>)
    ensures
        ({
            let p0 = None::<Seq<char>>;
            let p1 = pick(p0, name == "name"@, Some(v.id));
            let p2 = pick(p1, name == "enabled"@, Some(flag(v.enabled)));
            let p3 = pick(p2, name == "family"@, Some(family_name(v.matches.family)));
            let p4 = pick(p3, name == "src"@, first_of(v.matches.source_zones));
            let p5 = pick(p4, name == "proto"@, protocols_value(v.matches.protocols));
            let p6 = pick(p5, name == "src_ip"@, first_network(v.matches.source_networks));
            let p7 = pick(p6, name == "src_port"@, first_port(v.matches.source_ports));
            let p8 = pick(p7, name == "dest"@, first_of(v.matches.destination_zones));
            let p9 = pick(p8, name == "src_dip"@, first_network(v.matches.destination_networks));
            let p10 = pick(p9, name == "src_dport"@, first_port(v.matches.destination_ports));
            let p11 = pick(p10, name == "dest_ip"@, address_of(v.translation_address));
            let p12 = pick(p11, name == "dest_port"@, port_of(v.translation_port));
            let p13 = pick(p12, name == "target"@, Some("DNAT"@));
            let p14 = pick(p13, name == "ipset"@, set_text(v.matches));
            lookup(redirect_options(v), name) == p14
        }),
{
    let o0 = Seq::<(Seq<char>, Seq<char>)>::empty();
    assert(lookup(o0, name) is None);
    lemma_lookup_push(o0, name, "name"@, v.id);
    let o1 = o0.push(("name"@, v.id));
    lemma_lookup_push(o1, name, "enabled"@, flag(v.enabled));
    let o2 = o1.push(("enabled"@, flag(v.enabled)));
    lemma_lookup_push(o2, name, "family"@, family_name(v.matches.family));
    let o3 = o2.push(("family"@, family_name(v.matches.family)));
    lemma_lookup_put(o3, name, "src"@, first_of(v.matches.source_zones));
    let o4 = put_some(o3, "src"@, first_of(v.matches.source_zones));
    lemma_lookup_put(o4, name, "proto"@, protocols_value(v.matches.protocols));
    let o5 = put_some(o4, "proto"@, protocols_value(v.matches.protocols));
    lemma_lookup_put(o5, name, "src_ip"@, first_network(v.matches.source_networks));
    let o6 = put_some(o5, "src_ip"@, first_network(v.matches.source_networks));
    lemma_lookup_put(o6, name, "src_port"@, first_port(v.matches.source_ports));
    let o7 = put_some(o6, "src_port"@, first_port(v.matches.source_ports));
    lemma_lookup_put(o7, name, "dest"@, first_of(v.matches.destination_zones));
    let o8 = put_some(o7, "dest"@, first_of(v.matches.destination_zones));
    lemma_lookup_put(o8, name, "src_dip"@, first_network(v.matches.destination_networks));
    let o9 = put_some(o8, "src_dip"@, first_network(v.matches.destination_networks));
    lemma_lookup_put(o9, name, "src_dport"@, first_port(v.matches.destination_ports));
    let o10 = put_some(o9, "src_dport"@, first_port(v.matches.destination_ports));
    lemma_lookup_put(o10, name, "dest_ip"@, address_of(v.translation_address));
    let o11 = put_some(o10, "dest_ip"@, address_of(v.translation_address));
    lemma_lookup_put(o11, name, "dest_port"@, port_of(v.translation_port));
    let o12 = put_some(o11, "dest_port"@, port_of(v.translation_port));
    lemma_lookup_push(o12, name, "target"@, "DNAT"@);
    let o13 = o12.push(("target"@, "DNAT"@));
    lemma_lookup_put(o13, name, "ipset"@, set_text(v.matches));
    let o14 = put_some(o13, "ipset"@, set_text(v.matches));
    assert(redirect_options(v) == o14);
}

proof fn lemma_redirect_set(v: FirewallNatRuleView)
    ensures
        lookup(redirect_options(v), "name"@) == Some(v.id),
        lookup(redirect_options(v), "enabled"@) == Some(flag(v.enabled)),
        lookup(redirect_options(v), "family"@) == Some(family_name(v.matches.family)),
        lookup(redirect_options(v), "src"@) == first_of(v.matches.source_zones),
        lookup(redirect_options(v), "proto"@) == protocols_value(v.matches.protocols),
        lookup(redirect_options(v), "src_ip"@) == first_network(v.matches.source_networks),
        lookup(redirect_options(v), "src_port"@) == first_port(v.matches.source_ports),
        lookup(redirect_options(v), "dest"@) == first_of(v.matches.destination_zones),
        lookup(redirect_options(v), "src_dip"@) == first_network(v.matches.destination_networks),
        lookup(redirect_options(v), "src_dport"@) == first_port(v.matches.destination_ports),
        lookup(redirect_options(v), "dest_ip"@) == address_of(v.translation_address),
        lookup(redirect_options(v), "dest_port"@) == port_of(v.translation_port),
        lookup(redirect_options(v), "target"@) == Some("DNAT"@),
        lookup(redirect_options(v), "ipset"@) == set_text(v.matches),
{
    reveal_strlit("name");
    assert(tag("name"@) == (4nat, 'n', 'a', 'e'));
    reveal_strlit("enabled");
    assert(tag("enabled"@) == (7nat, 'e', 'n', 'd'));
    reveal_strlit("family");
    assert(tag("family"@) == (6nat, 'f', 'a', 'y'));
    reveal_strlit("src");
    assert(tag("src"@) == (3nat, 's', 'r', 'c'));
    reveal_strlit("proto");
    assert(tag("proto"@) == (5nat, 'p', 'r', 'o'));
    reveal_strlit("src_ip");
    assert(tag("src_ip"@) == (6nat, 's', 'r', 'p'));
    reveal_strlit("src_port");
    assert(tag("src_port"@) == (8nat, 's', 'r', 't'));
    reveal_strlit("dest");
    assert(tag("dest"@) == (4nat, 'd', 'e', 't'));
    reveal_strlit("src_dip");
    assert(tag("src_dip"@) == (7nat, 's', 'r', 'p'));
    reveal_strlit("src_dport");
    assert(tag("src_dport"@) == (9nat, 's', 'r', 't'));
    reveal_strlit("dest_ip");
    assert(tag("dest_ip"@) == (7nat, 'd', 'e', 'p'));
    reveal_strlit("dest_port");
    assert(tag("dest_port"@) == (9nat, 'd', 'e', 't'));
    reveal_strlit("target");
    assert(tag("target"@) == (6nat, 't', 'a', 't'));
    reveal_strlit("ipset");
    assert(tag("ipset"@) == (5nat, 'i', 'p', 't'));
    lemma_redirect_lookup(v, "name"@);
    lemma_redirect_lookup(v, "enabled"@);
    lemma_redirect_lookup(v, "family"@);
    lemma_redirect_lookup(v, "src"@);
    lemma_redirect_lookup(v, "proto"@);
    lemma_redirect_lookup(v, "src_ip"@);
    lemma_redirect_lookup(v, "src_port"@);
    lemma_redirect_lookup(v, "dest"@);
    lemma_redirect_lookup(v, "src_dip"@);
    lemma_redirect_lookup(v, "src_dport"@);
    lemma_redirect_lookup(v, "dest_ip"@);
    lemma_redirect_lookup(v, "dest_port"@);
    lemma_redirect_lookup(v, "target"@);
    lemma_redirect_lookup(v, "ipset"@);
}

proof fn lemma_redirect_unset(v: FirewallNatRuleView)
    ensures
        lookup(redirect_options(v), "src_mac"@) is None,
        lookup(redirect_options(v), "icmp_type"@) is None,
{
    reveal_strlit("name");
    assert(tag("name"@) == (4nat, 'n', 'a', 'e'));
    reveal_strlit("enabled");
    assert(tag("enabled"@) == (7nat, 'e', 'n', 'd'));
    reveal_strlit("family");
    assert(tag("family"@) == (6nat, 'f', 'a', 'y'));
    reveal_strlit("src");
    assert(tag("src"@) == (3nat, 's', 'r', 'c'));
    reveal_strlit("proto");
    assert(tag("proto"@) == (5nat, 'p', 'r', 'o'));
    reveal_strlit("src_ip");
    assert(tag("src_ip"@) == (6nat, 's', 'r', 'p'));
    reveal_strlit("src_port");
    assert(tag("src_port"@) == (8nat, 's', 'r', 't'));
    reveal_strlit("dest");
    assert(tag("dest"@) == (4nat, 'd', 'e', 't'));
    reveal_strlit("src_dip");
    assert(tag("src_dip"@) == (7nat, 's', 'r', 'p'));
    reveal_strlit("src_dport");
    assert(tag("src_dport"@) == (9nat, 's', 'r', 't'));
    reveal_strlit("dest_ip");
    assert(tag("dest_ip"@) == (7nat, 'd', 'e', 'p'));
    reveal_strlit("dest_port");
    assert(tag("dest_port"@) == (9nat, 'd', 'e', 't'));
    reveal_strlit("target");
    assert(tag("target"@) == (6nat, 't', 'a', 't'));
    reveal_strlit("ipset");
    assert(tag("ipset"@) == (5nat, 'i', 'p', 't'));
    reveal_strlit("src_mac");
    assert(tag("src_mac"@) == (7nat, 's', 'r', 'c'));
    reveal_strlit("icmp_type");
    assert(tag("icmp_type"@) == (9nat, 'i', 'c', 'e'));
    lemma_redirect_lookup(v, "src_mac"@);
    lemma_redirect_lookup(v, "icmp_type"@);
}

proof fn lemma_source_gets(selector: Seq<char>, v: FirewallNatRuleView)
    requires
        nat_rule_section(v) is Ok,
        is_source_kind(v.kind),
    ensures
        ({
            let s = written(selector, nat_rule_section(v)->Ok_0);
            &&& s.get("name"@) == Some(seq![v.id])
            &&& s.get("enabled"@) == Some(seq![flag(v.enabled)])
            &&& s.get("family"@) == Some(seq![family_name(v.matches.family)])
            &&& s.get("src"@) == one(first_of(v.matches.source_zones))
            &&& s.get("proto"@) == one(protocols_value(v.matches.protocols))
            &&& s.get("src_ip"@) == one(first_network(v.matches.source_networks))
            &&& s.get("src_port"@) == one(first_port(v.matches.source_ports))
            &&& s.get("dest_ip"@) == one(first_network(v.matches.destination_networks))
            &&& s.get("dest_port"@) == one(first_port(v.matches.destination_ports))
            &&& s.get("snat_ip"@) == one(address_of(v.translation_address))
            &&& s.get("snat_port"@) == one(port_of(v.translation_port))
            &&& s.get("target"@) == Some(seq![source_target(v.kind)])
            &&& s.get("dest"@) is None
            &&& s.get("ipset"@) is None
            &&& s.get("src_mac"@) is None
            &&& s.get("icmp_type"@) is None
            &&& s.section_type == "nat"@
        }),
{
    let r = nat_rule_section(v)->Ok_0;
    let s = written(selector, r);
    lemma_nat_options(v);
    lemma_source_set(v);
    lemma_source_unset(v);
    lemma_written_order(selector, r);
    assert(r.lists.len() == 0);
    lemma_written_get(selector, r, "name"@);
    lemma_written_get(selector, r, "enabled"@);
    lemma_written_get(selector, r, "family"@);
    lemma_written_get(selector, r, "src"@);
    lemma_written_get(selector, r, "proto"@);
    lemma_written_get(selector, r, "src_ip"@);
    lemma_written_get(selector, r, "src_port"@);
    lemma_written_get(selector, r, "dest_ip"@);
    lemma_written_get(selector, r, "dest_port"@);
    lemma_written_get(selector, r, "snat_ip"@);
    lemma_written_get(selector, r, "snat_port"@);
    lemma_written_get(selector, r, "target"@);
    lemma_written_get(selector, r, "dest"@);
    lemma_written_get(selector, r, "ipset"@);
    lemma_written_get(selector, r, "src_mac"@);
    lemma_written_get(selector, r, "icmp_type"@);
}

proof fn lemma_mac_list(macs: Seq<Seq<char>>)
    ensures
        ({
            let lists = put_list(Seq::empty(), "src_mac"@, macs);
            &&& list_from(lists, "src_mac"@, 0) == filled(macs)
            &&& list_from(lists, "name"@, 0) is None
            &&& list_from(lists, "enabled"@, 0) is None
            &&& list_from(lists, "family"@, 0) is None
            &&& list_from(lists, "src"@, 0) is None
            &&& list_from(lists, "proto"@, 0) is None
            &&& list_from(lists, "src_ip"@, 0) is None
            &&& list_from(lists, "src_port"@, 0) is None
            &&& list_from(lists, "dest"@, 0) is None
            &&& list_from(lists, "src_dip"@, 0) is None
            &&& list_from(lists, "src_dport"@, 0) is None
            &&& list_from(lists, "dest_ip"@, 0) is None
            &&& list_from(lists, "dest_port"@, 0) is None
            &&& list_from(lists, "target"@, 0) is None
            &&& list_from(lists, "ipset"@, 0) is None
            &&& list_from(lists, "icmp_type"@, 0) is None
        }),
{
    reveal_strlit("src_mac");
    assert(tag("src_mac"@) == (7nat, 's', 'r', 'c'));
    reveal_strlit("name");
    assert(tag("name"@) == (4nat, 'n', 'a', 'e'));
    reveal_strlit("enabled");
    assert(tag("enabled"@) == (7nat, 'e', 'n', 'd'));
    reveal_strlit("family");
    assert(tag("family"@) == (6nat, 'f', 'a', 'y'));
    reveal_strlit("src");
    assert(tag("src"@) == (3nat, 's', 'r', 'c'));
    reveal_strlit("proto");
    assert(tag("proto"@) == (5nat, 'p', 'r', 'o'));
    reveal_strlit("src_ip");
    assert(tag("src_ip"@) == (6nat, 's', 'r', 'p'));
    reveal_strlit("src_port");
    assert(tag("src_port"@) == (8nat, 's', 'r', 't'));
    reveal_strlit("dest");
    assert(tag("dest"@) == (4nat, 'd', 'e', 't'));
    reveal_strlit("src_dip");
    assert(tag("src_dip"@) == (7nat, 's', 'r', 'p'));
    reveal_strlit("src_dport");
    assert(tag("src_dport"@) == (9nat, 's', 'r', 't'));
    reveal_strlit("dest_ip");
    assert(tag("dest_ip"@) == (7nat, 'd', 'e', 'p'));
    reveal_strlit("dest_port");
    assert(tag("dest_port"@) == (9nat, 'd', 'e', 't'));
    reveal_strlit("target");
    assert(tag("target"@) == (6nat, 't', 'a', 't'));
    reveal_strlit("ipset");
    assert(tag("ipset"@) == (5nat, 'i', 'p', 't'));
    reveal_strlit("icmp_type");
    assert(tag("icmp_type"@) == (9nat, 'i', 'c', 'e'));
    let lists = put_list(Seq::empty(), "src_mac"@, macs);
    let none = Seq::<(Seq<char>, Seq<Seq<char>>)>::empty();
    lemma_list_put(none, "src_mac"@, macs, "src_mac"@);
    lemma_list_put(none, "src_mac"@, macs, "name"@);
    lemma_list_put(none, "src_mac"@, macs, "enabled"@);
    lemma_list_put(none, "src_mac"@, macs, "family"@);
    lemma_list_put(none, "src_mac"@, macs, "src"@);
    lemma_list_put(none, "src_mac"@, macs, "proto"@);
    lemma_list_put(none, "src_mac"@, macs, "src_ip"@);
    lemma_list_put(none, "src_mac"@, macs, "src_port"@);
    lemma_list_put(none, "src_mac"@, macs, "dest"@);
    lemma_list_put(none, "src_mac"@, macs, "src_dip"@);
    lemma_list_put(none, "src_mac"@, macs, "src_dport"@);
    lemma_list_put(none, "src_mac"@, macs, "dest_ip"@);
    lemma_list_put(none, "src_mac"@, macs, "dest_port"@);
    lemma_list_put(none, "src_mac"@, macs, "target"@);
    lemma_list_put(none, "src_mac"@, macs, "ipset"@);
    lemma_list_put(none, "src_mac"@, macs, "icmp_type"@);
}

proof fn lemma_redirect_gets(selector: Seq<char>, v: FirewallNatRuleView)
    requires
        nat_rule_section(v) is Ok,
        !is_source_kind(v.kind),
    ensures
        ({
            let s = written(selector, nat_rule_section(v)->Ok_0);
            &&& s.get("name"@) == Some(seq![v.id])
            &&& s.get("enabled"@) == Some(seq![flag(v.enabled)])
            &&& s.get("family"@) == Some(seq![family_name(v.matches.family)])
            &&& s.get("src"@) == one(first_of(v.matches.source_zones))
            &&& s.get("proto"@) == one(protocols_value(v.matches.protocols))
            &&& s.get("src_ip"@) == one(first_network(v.matches.source_networks))
            &&& s.get("src_port"@) == one(first_port(v.matches.source_ports))
            &&& s.get("dest"@) == one(first_of(v.matches.destination_zones))
            &&& s.get("src_dip"@) == one(first_network(v.matches.destination_networks))
            &&& s.get("src_dport"@) == one(first_port(v.matches.destination_ports))
            &&& s.get("dest_ip"@) == one(address_of(v.translation_address))
            &&& s.get("dest_port"@) == one(port_of(v.translation_port))
            &&& s.get("target"@) == Some(seq!["DNAT"@])
            &&& s.get("ipset"@) == one(set_text(v.matches))
            &&& s.get("icmp_type"@) is None
            &&& s.values("src_mac"@) == v.matches.source_macs
            &&& s.section_type == "redirect"@
        }),
{
    let r = nat_rule_section(v)->Ok_0;
    let s = written(selector, r);
    lemma_nat_options(v);
    lemma_redirect_set(v);
    lemma_redirect_unset(v);
    lemma_written_order(selector, r);
    lemma_mac_list(v.matches.source_macs);
    lemma_written_get(selector, r, "name"@);
    lemma_written_get(selector, r, "enabled"@);
    lemma_written_get(selector, r, "family"@);
    lemma_written_get(selector, r, "src"@);
    lemma_written_get(selector, r, "proto"@);
    lemma_written_get(selector, r, "src_ip"@);
    lemma_written_get(selector, r, "src_port"@);
    lemma_written_get(selector, r, "dest"@);
    lemma_written_get(selector, r, "src_dip"@);
    lemma_written_get(selector, r, "src_dport"@);
    lemma_written_get(selector, r, "dest_ip"@);
    lemma_written_get(selector, r, "dest_port"@);
    lemma_written_get(selector, r, "target"@);
    lemma_written_get(selector, r, "ipset"@);
    lemma_written_get(selector, r, "icmp_type"@);
    lemma_written_get(selector, r, "src_mac"@);
    assert(s.values("src_mac"@) =~= v.matches.source_macs);
}

proof fn lemma_first_network(s: UciSectionView, name: Seq<char>, a: Seq<IpNetwork>)
    requires
        a.len() <= 1,
        s.get(name) == one(first_network(a)),
    ensures
        networks_option(s, name) == Some(a),
{
    lemma_networks_read(a);
    assert(s.values(name) =~= network_texts(a));
}

proof fn lemma_first_port(s: UciSectionView, name: Seq<char>, a: Seq<PortRange>)
    requires
        a.len() <= 1,
        s.get(name) == one(first_port(a)),
    ensures
        ports_option(s, name) == Some(a),
{
    lemma_ports_read(a);
    assert(s.values(name) =~= port_texts(a));
}

proof fn lemma_address(s: UciSectionView, name: Seq<char>, a: Option<IpAddr>)
    requires
        s.get(name) == one(address_of(a)),
    ensures
        address_option(s, name) == Some(a),
        networks_option(s, name) is Some,
{
    let f = |r: Seq<char>| LooseNetworks::value(r);
    let values = s.values(name);
    if let Some(x) = a {
        law_address_round_trips(x);
        let n = IpNetwork {
            address: x,
            prefix_len: if x is V4 {
                32
            } else {
                128
            },
        };
        let t = address_format(x);
        assert(values =~= seq![t]);
        if t.contains('/') {
            let k = choose|k: int| 0 <= k < t.len() && t[k] == '/';
            assert(t[k] != '/');
        }
        assert(f(values[0]) == Some(n));
        lemma_map_all(values, f, seq![n]);
    } else {
        assert(values =~= Seq::<Seq<char>>::empty());
        lemma_map_all(values, f, Seq::<IpNetwork>::empty());
    }
}

proof fn lemma_port_option(s: UciSectionView, name: Seq<char>, a: Option<PortRange>)
    requires
        s.get(name) == one(port_of(a)),
    ensures
        port_option(s, name) == Some(a),
        ports_option(s, name) is Some,
{
    let f = |r: Seq<char>| Ports::value(r);
    let values = s.values(name);
    if let Some(x) = a {
        lemma_port(x);
        assert(values =~= seq![port_text(x)]);
        assert(f(values[0]) == Some(x));
        lemma_map_all(values, f, seq![x]);
    } else {
        assert(values =~= Seq::<Seq<char>>::empty());
        lemma_map_all(values, f, Seq::<PortRange>::empty());
    }
}

/// What an inspection can tell of a translation: a translated source goes to no zone, a translated
/// destination is told from a redirection by its address, what it refers to by name is a word, and
/// hardware addresses are in lower case.
pub open spec fn is_plain_nat(v: FirewallNatRuleView) -> bool {
    &&& has_plain_sets(v.matches)
    &&& forall|i: int|
        0 <= i < v.matches.source_macs.len() ==> is_plain_mac(#[trigger] v.matches.source_macs[i])
    &&& is_source_kind(v.kind) ==> v.matches.destination_zones.len() == 0
    &&& v.kind == FirewallNatKind::DestinationNat ==> v.translation_address is Some
    &&& v.kind == FirewallNatKind::Redirect ==> v.translation_address is None
}

/// What holds of the matches of a translation that can be written.
pub open spec fn is_nat_match(m: FirewallMatchView) -> bool {
    &&& m.conntrack_states.len() == 0 && m.icmp_types.len() == 0
    &&& m.input_interfaces.len() == 0 && m.output_interfaces.len() == 0
    &&& m.source_zones.len() <= 1 && m.destination_zones.len() <= 1
    &&& m.source_networks.len() <= 1 && m.destination_networks.len() <= 1
    &&& m.source_ports.len() <= 1 && m.destination_ports.len() <= 1
    &&& m.source_sets.len() + m.destination_sets.len() <= 1
}

proof fn lemma_nat_match(v: FirewallNatRuleView)
    requires
        nat_rule_section(v) is Ok,
    ensures
        is_nat_match(v.matches),
        is_source_kind(v.kind) ==> v.matches.source_sets.len() == 0
            && v.matches.destination_sets.len() == 0 && v.matches.source_macs.len() == 0,
{
}

/// The matches of a translation as its section gives them, with the destination that stands there.
pub open spec fn toward(
    m: FirewallMatchView,
    networks: Seq<IpNetwork>,
    ports: Seq<PortRange>,
) -> FirewallMatchView {
    FirewallMatchView { destination_networks: networks, destination_ports: ports, ..m }
}

proof fn lemma_nat_common(
    s: UciSectionView,
    m: FirewallMatchView,
    networks: Seq<IpNetwork>,
    ports: Seq<PortRange>,
)
    requires
        is_nat_match(m),
        has_plain_sets(m),
        forall|i: int| 0 <= i < m.source_macs.len() ==> is_plain_mac(#[trigger] m.source_macs[i]),
        s.get("family"@) == Some(seq![family_name(m.family)]),
        s.get("src"@) == one(first_of(m.source_zones)),
        s.get("dest"@) == one(first_of(m.destination_zones)),
        s.get("proto"@) == one(protocols_value(m.protocols)),
        s.get("src_ip"@) == one(first_network(m.source_networks)),
        s.get("src_port"@) == one(first_port(m.source_ports)),
        s.get("ipset"@) == one(set_text(m)),
        s.get("icmp_type"@) is None,
        s.values("src_mac"@) == m.source_macs,
        networks_option(s, "dest_ip"@) == Some(networks),
        ports_option(s, "dest_port"@) == Some(ports),
    ensures
        common_matches(s) == Some(toward(m, networks, ports)),
{
    lemma_family(m.family);
    lemma_macs_read(m.source_macs);
    lemma_protocols_read(s, m.protocols);
    lemma_first_network(s, "src_ip"@, m.source_networks);
    lemma_first_port(s, "src_port"@, m.source_ports);
    lemma_set_read(s, m);
    lemma_zones(m.source_zones);
    lemma_zones(m.destination_zones);
    lemma_bytes_read(m.icmp_types);
    assert(s.values("icmp_type"@) =~= byte_texts(m.icmp_types));
    assert(common_matches(s)->Some_0 =~= toward(m, networks, ports));
}

proof fn lemma_targets()
    ensures
        lower_all("DNAT"@) == "dnat"@,
        lower_all("SNAT"@) == "snat"@,
        lower_all("MASQUERADE"@) == "masquerade"@,
        "masquerade"@ != "snat"@,
        "redirect"@ != "nat"@,
{
    reveal_strlit("DNAT");
    reveal_strlit("SNAT");
    reveal_strlit("MASQUERADE");
    reveal_strlit("dnat");
    reveal_strlit("snat");
    reveal_strlit("masquerade");
    reveal_strlit("redirect");
    reveal_strlit("nat");
    assert(lower_all("DNAT"@) =~= "dnat"@);
    assert(lower_all("SNAT"@) =~= "snat"@);
    assert(lower_all("MASQUERADE"@) =~= "masquerade"@);
    assert("masquerade"@.len() != "snat"@.len());
    assert("redirect"@.len() != "nat"@.len());
}

proof fn lemma_source_value(selector: Seq<char>, v: FirewallNatRuleView)
    requires
        nat_rule_section(v) is Ok,
        is_plain_nat(v),
        is_source_kind(v.kind),
    ensures
        nat_rule_value(written(selector, nat_rule_section(v)->Ok_0), v.ownership) == Some(
            FirewallNatRuleView { order: 0, ..v },
        ),
{
    let r = nat_rule_section(v)->Ok_0;
    let s = written(selector, r);
    let m = v.matches;
    lemma_written_order(selector, r);
    lemma_source_gets(selector, v);
    lemma_nat_match(v);
    lemma_first_network(s, "dest_ip"@, m.destination_networks);
    lemma_first_port(s, "dest_port"@, m.destination_ports);
    assert(s.values("src_mac"@) =~= m.source_macs);
    lemma_nat_common(s, m, m.destination_networks, m.destination_ports);
    assert(toward(m, m.destination_networks, m.destination_ports) == m);
    lemma_targets();
    lemma_address(s, "snat_ip"@, v.translation_address);
    lemma_port_option(s, "snat_port"@, v.translation_port);
    lemma_flag(v.enabled);
    assert(translation_value(s, m) == Some(
        (v.kind, m, v.translation_address, v.translation_port),
    ));
}

proof fn lemma_redirect_value(selector: Seq<char>, v: FirewallNatRuleView)
    requires
        nat_rule_section(v) is Ok,
        is_plain_nat(v),
        !is_source_kind(v.kind),
    ensures
        nat_rule_value(written(selector, nat_rule_section(v)->Ok_0), v.ownership) == Some(
            FirewallNatRuleView { order: 0, ..v },
        ),
{
    let r = nat_rule_section(v)->Ok_0;
    let s = written(selector, r);
    let m = v.matches;
    lemma_written_order(selector, r);
    lemma_redirect_gets(selector, v);
    lemma_nat_match(v);
    lemma_targets();
    lemma_address(s, "dest_ip"@, v.translation_address);
    lemma_port_option(s, "dest_port"@, v.translation_port);
    lemma_first_network(s, "src_dip"@, m.destination_networks);
    lemma_first_port(s, "src_dport"@, m.destination_ports);
    let networks = networks_option(s, "dest_ip"@)->Some_0;
    let ports = ports_option(s, "dest_port"@)->Some_0;
    lemma_nat_common(s, m, networks, ports);
    let t = toward(m, networks, ports);
    assert(toward(t, m.destination_networks, m.destination_ports) == m);
    lemma_flag(v.enabled);
    assert(translation_value(s, t) == Some(
        (v.kind, m, v.translation_address, v.translation_port),
    ));
}

proof fn lemma_nat_type(
    s: UciSectionView,
    defaults: Option<ZoneDefaults>,
    ownership: ObjectOwnership,
)
    requires
        s.section_type == "nat"@ || s.section_type == "redirect"@,
        has_plurality(s.options, plural_options(s.section_type)),
        ownership_value(s) == Some(ownership),
    ensures
        firewall_object_value(s, defaults) == (match nat_rule_value(
            s,
            ownership,
        ) {
            Some(v) => Some(FirewallObjectView::NatRule(v)),
            None => None,
        }),
{
    reveal_strlit("zone");
    assert(tag("zone"@) == (4nat, 'z', 'o', 'e'));
    reveal_strlit("forwarding");
    assert(tag("forwarding"@) == (10nat, 'f', 'o', 'g'));
    reveal_strlit("rule");
    assert(tag("rule"@) == (4nat, 'r', 'u', 'e'));
    reveal_strlit("ipset");
    assert(tag("ipset"@) == (5nat, 'i', 'p', 't'));
    reveal_strlit("nat");
    assert(tag("nat"@) == (3nat, 'n', 'a', 't'));
    reveal_strlit("redirect");
    assert(tag("redirect"@) == (8nat, 'r', 'e', 't'));
}

proof fn lemma_nat_marker()
    ensures
        ownership_marker("redirect"@) == ownership_marker("nat"@),
{
    reveal_strlit("zone");
    assert(tag("zone"@) == (4nat, 'z', 'o', 'e'));
    reveal_strlit("forwarding");
    assert(tag("forwarding"@) == (10nat, 'f', 'o', 'g'));
    reveal_strlit("rule");
    assert(tag("rule"@) == (4nat, 'r', 'u', 'e'));
    reveal_strlit("ipset");
    assert(tag("ipset"@) == (5nat, 'i', 'p', 't'));
    reveal_strlit("nat");
    assert(tag("nat"@) == (3nat, 'n', 'a', 't'));
    reveal_strlit("redirect");
    assert(tag("redirect"@) == (8nat, 'r', 'e', 't'));
}

proof fn lemma_nat_plural(v: FirewallNatRuleView)
    requires
        nat_rule_section(v) is Ok,
    ensures
        ({
            let r = nat_rule_section(v)->Ok_0;
            &&& r.section_type == "nat"@ || r.section_type == "redirect"@
            &&& forall|k: int|
                0 <= k < r.lists.len() ==> plural_options(r.section_type).contains(
                    #[trigger] r.lists[k].0,
                )
        }),
{
    reveal_strlit("zone");
    assert(tag("zone"@) == (4nat, 'z', 'o', 'e'));
    reveal_strlit("rule");
    assert(tag("rule"@) == (4nat, 'r', 'u', 'e'));
    reveal_strlit("ipset");
    assert(tag("ipset"@) == (5nat, 'i', 'p', 't'));
    reveal_strlit("redirect");
    assert(tag("redirect"@) == (8nat, 'r', 'e', 't'));
    assert(plural_options("redirect"@)[0] == "src_mac"@);
}

/// A translation rule that is written is read back as itself, whoever owns it, but for its order, which is
/// the place of its section.
pub proof fn law_written_nat_rule_is_read_back(
    selector: Seq<char>,
    v: FirewallNatRuleView,
    backend: FirewallBackend,
    defaults: Option<ZoneDefaults>,
)
    requires
        is_owners(selector, "nat"@, v.ownership),
        object_section(FirewallObjectView::NatRule(v), backend) is Ok,
        is_plain_nat(v),
    ensures
        firewall_object_value(
            written(selector, object_section(FirewallObjectView::NatRule(v), backend)->Ok_0),
            defaults,
        ) == Some(FirewallObjectView::NatRule(FirewallNatRuleView { order: 0, ..v })),
{
    let r = nat_rule_section(v)->Ok_0;
    let s = written(selector, r);
    lemma_nat_marker();
    lemma_nat_plural(v);
    lemma_written_order(selector, r);
    lemma_owned(s, v.ownership);
    if is_source_kind(v.kind) {
        lemma_source_value(selector, v);
    } else {
        lemma_redirect_value(selector, v);
    }
    lemma_written_plurality(selector, r, plural_options(r.section_type));
    lemma_nat_type(s, defaults, v.ownership);
}

} // verus!
