//! What the options of a firewall section mean.

use vstd::prelude::*;

use crate::change::ObjectOwnership;
use crate::firewall_inventory::{
    all_words, defaults_value, firewall_object_value, is_mac, is_short_digest, loose_network, port_value,
    protocol_word, protocols_option, type_from, verdict_word, LooseNetworks, MacEntries, Macs, NetworkEntries,
    PortEntries, Ports, ProtocolWords, ZoneDefaults,
};
use crate::firewall_model::{
    FirewallDirection, FirewallFamily, FirewallLogLevel, FirewallMatchView, FirewallNatKind,
    FirewallObjectView, FirewallProtocol, FirewallSetEntryView, FirewallVerdict, PortRange,
};
use crate::firewall_uci::UciSectionView;
use crate::net::{address_value, network_value, IpAddr, IpNetwork};
use crate::option_reading_laws::{law_words_of_truth, says_no, says_yes};
use crate::parse::{u16_value, u32_value, u8_value, Bytes, Reader};
use crate::text::{ends, lower_all, split_once, starts, words};

verus! {

/// Whether a word is a verdict, in any case.
pub open spec fn is_verdict(v: Seq<char>, x: FirewallVerdict) -> bool {
    match x {
        FirewallVerdict::Accept => lower_all(v) == "accept"@,
        FirewallVerdict::Drop => lower_all(v) == "drop"@,
        FirewallVerdict::Reject => lower_all(v) == "reject"@,
    }
}

proof fn lemma_verdict(v: Seq<char>, x: FirewallVerdict)
    ensures
        verdict_word(v) == Some(x) <==> is_verdict(v, x),
{
    reveal_strlit("accept");
    reveal_strlit("drop");
    reveal_strlit("reject");
    assert("accept"@.len() == 6 && "drop"@.len() == 4 && "reject"@.len() == 6 && "accept"@[0] == 'a' && "reject"@[0]
        == 'r');
}

/// Whether a section is enabled: nothing says that it is not.
pub open spec fn is_on(s: UciSectionView) -> bool {
    !says_no(s, "enabled"@)
}

/// Whether an option names a verdict, or is absent and the verdict is the given one.
pub open spec fn has_verdict(s: UciSectionView, name: Seq<char>, x: FirewallVerdict, default: FirewallVerdict) -> bool {
    match s.get(name) {
        Some(v) => v.len() == 1 && is_verdict(v[0], x),
        None => x == default,
    }
}

/// Whether the owner of a section is the one that its name shows: the agent where it is a mark of the kind and sixteen
/// hexadecimal digits, and the platform where it does not begin as the agent's names do.
pub open spec fn is_owner(s: UciSectionView, marker: Seq<char>, o: ObjectOwnership) -> bool {
    match o {
        ObjectOwnership::AgentOwned => starts(s.selector, "mbed_"@) && starts(s.selector, marker) && is_short_digest(
            s.selector.skip(marker.len() as int),
        ),
        ObjectOwnership::PlatformNative => !starts(s.selector, "mbed_"@),
        _ => false,
    }
}

proof fn lemma_switch(s: UciSectionView, name: Seq<char>)
    ensures
        ({
            let x = crate::firewall_inventory::switch_option(s, name);
            &&& x == Some(Some(true)) <==> says_yes(s, name)
            &&& x == Some(Some(false)) <==> says_no(s, name)
        }),
{
    if let Some(v) = s.scalar(name) {
        law_words_of_truth(v);
    }
}

proof fn lemma_kinds()
    ensures
        "zone"@ != "forwarding"@,
        "zone"@ != "rule"@,
        "zone"@ != "ipset"@,
        "zone"@ != "redirect"@,
        "zone"@ != "nat"@,
        "forwarding"@ != "rule"@,
        "forwarding"@ != "ipset"@,
        "forwarding"@ != "redirect"@,
        "forwarding"@ != "nat"@,
        "rule"@ != "ipset"@,
        "rule"@ != "redirect"@,
        "rule"@ != "nat"@,
        "ipset"@ != "redirect"@,
        "ipset"@ != "nat"@,
        "redirect"@ != "nat"@,
{
    reveal_strlit("zone");
    reveal_strlit("forwarding");
    reveal_strlit("rule");
    reveal_strlit("ipset");
    reveal_strlit("redirect");
    reveal_strlit("nat");
    assert("zone"@.len() == 4 && "forwarding"@.len() == 10 && "rule"@.len() == 4 && "ipset"@.len() == 5
        && "redirect"@.len() == 8 && "nat"@.len() == 3);
    assert("zone"@[0] == 'z' && "rule"@[0] == 'r');
}

/// A zone is what its options say: its verdicts are its own or else the general ones, which are to reject where there
/// are none.
pub proof fn law_zone_is_what_its_options_say(s: UciSectionView, defaults: Option<ZoneDefaults>)
    ensures
        firewall_object_value(s, defaults) matches Some(FirewallObjectView::Zone(x)) ==> {
            &&& s.section_type == "zone"@
            &&& s.scalar("name"@) == Some(x.id)
            &&& is_owner(s, "mbed_z_"@, x.ownership)
            &&& x.enabled <==> is_on(s)
            &&& x.networks == s.values("network"@)
            &&& has_verdict(s, "input"@, x.input, match defaults {
                Some(d) => d.input,
                None => FirewallVerdict::Reject,
            })
            &&& has_verdict(s, "output"@, x.output, match defaults {
                Some(d) => d.output,
                None => FirewallVerdict::Reject,
            })
            &&& has_verdict(s, "forward"@, x.forward, match defaults {
                Some(d) => d.forward,
                None => FirewallVerdict::Reject,
            })
            &&& x.masquerade <==> says_yes(s, "masq"@)
            &&& x.mtu_fix <==> says_yes(s, "mtu_fix"@)
        },
{
    if let Some(FirewallObjectView::Zone(x)) = firewall_object_value(s, defaults) {
        lemma_kinds();
        lemma_switch(s, "enabled"@);
        lemma_switch(s, "masq"@);
        lemma_switch(s, "mtu_fix"@);
        if let Some(v) = s.get("input"@) {
            lemma_verdict(v[0], x.input);
        }
        if let Some(v) = s.get("output"@) {
            lemma_verdict(v[0], x.output);
        }
        if let Some(v) = s.get("forward"@) {
            lemma_verdict(v[0], x.forward);
        }
    }
}

/// A forwarding is what its options say, and is named by its zones where it has no name.
pub proof fn law_forwarding_is_what_its_options_say(s: UciSectionView, defaults: Option<ZoneDefaults>)
    ensures
        firewall_object_value(s, defaults) matches Some(FirewallObjectView::Forwarding(x)) ==> {
            &&& s.section_type == "forwarding"@
            &&& is_owner(s, "mbed_f_"@, x.ownership)
            &&& x.enabled <==> is_on(s)
            &&& s.scalar("src"@) == Some(x.source_zone)
            &&& s.scalar("dest"@) == Some(x.destination_zone)
            &&& match s.scalar("name"@) {
                Some(n) => x.id == n,
                None => x.id == x.source_zone + "-"@ + x.destination_zone,
            }
        },
{
    lemma_kinds();
    lemma_switch(s, "enabled"@);
}

/// Whether a text is a network: with a prefix length, or one address.
pub open spec fn is_network(v: Seq<char>, n: IpNetwork) -> bool {
    if v.contains('/') {
        network_value(v) == Some(n)
    } else {
        address_value(v) == Some(n.address) && n.prefix_len == (match n.address {
            IpAddr::V4(_) => 32u8,
            IpAddr::V6(_) => 128u8,
        })
    }
}

/// Whether a text is a range of ports: one number, or two with a hyphen between them.
pub open spec fn is_range(v: Seq<char>, p: PortRange) -> bool {
    ||| u16_value(v) == Some(p.start) && p.end == p.start
    ||| exists|a: Seq<char>, b: Seq<char>|
        v == a + seq!['-'] + b && #[trigger] u16_value(a) == Some(p.start) && #[trigger] u16_value(b) == Some(p.end)
}

proof fn lemma_range(v: Seq<char>, p: PortRange)
    requires
        port_value(v) == Some(p),
    ensures
        is_range(v, p),
{
    if let Some((a, b)) = split_once(v, '-') {
        crate::text::lemma_find_from(v, '-', 0);
        assert(v =~= a + seq!['-'] + b);
    }
}

/// Whether texts are networks, one for one.
pub open spec fn are_networks(v: Seq<Seq<char>>, n: Seq<IpNetwork>) -> bool {
    v.len() == n.len() && forall|i: int| 0 <= i < n.len() ==> is_network(#[trigger] v[i], n[i])
}

/// Whether texts are ranges of ports, one for one.
pub open spec fn are_ranges(v: Seq<Seq<char>>, p: Seq<PortRange>) -> bool {
    v.len() == p.len() && forall|i: int| 0 <= i < p.len() ==> is_range(#[trigger] v[i], p[i])
}

/// Whether texts are hardware addresses, one for one: six pairs of hexadecimal digits in lower case.
pub open spec fn are_macs(v: Seq<Seq<char>>, m: Seq<Seq<char>>) -> bool {
    v.len() == m.len() && forall|i: int|
        0 <= i < m.len() ==> m[i] == lower_all(#[trigger] v[i]) && is_mac(m[i])
}

/// Whether a word is a protocol.
pub open spec fn is_protocol(w: Seq<char>, p: FirewallProtocol) -> bool {
    match p {
        FirewallProtocol::Tcp => w == "tcp"@,
        FirewallProtocol::Udp => w == "udp"@,
        FirewallProtocol::Icmp => w == "icmp"@,
        FirewallProtocol::Icmpv6 => w == "icmpv6"@ || w == "ipv6-icmp"@,
        FirewallProtocol::Esp => w == "esp"@,
        FirewallProtocol::Ah => w == "ah"@,
        FirewallProtocol::Gre => w == "gre"@,
    }
}

/// Whether the words of the values of an option are protocols, one for one.
pub open spec fn are_protocols(v: Seq<Seq<char>>, p: Seq<FirewallProtocol>) -> bool {
    let w = all_words(Seq::empty(), v, 0);
    w.len() == p.len() && forall|i: int| 0 <= i < p.len() ==> is_protocol(#[trigger] w[i], p[i])
}

/// Whether a section names a family: by a word or a number, and any where it names none.
pub open spec fn is_family_of(s: UciSectionView, f: FirewallFamily) -> bool {
    match s.scalar("family"@) {
        None => f == FirewallFamily::Any,
        Some(v) => match f {
            FirewallFamily::Any => v == "any"@ || v == "*"@,
            FirewallFamily::Ipv4 => v == "ipv4"@ || v == "4"@,
            FirewallFamily::Ipv6 => v == "ipv6"@ || v == "6"@,
        },
    }
}

/// Whether a list is the only value of an option, or empty.
pub open spec fn is_only(s: UciSectionView, name: Seq<char>, l: Seq<Seq<char>>) -> bool {
    match s.scalar(name) {
        Some(v) => l == seq![v],
        None => l.len() == 0,
    }
}

/// Whether a section names a set, by its name and the end that it matches.
pub open spec fn are_sets(s: UciSectionView, source: Seq<Seq<char>>, destination: Seq<Seq<char>>) -> bool {
    match s.scalar("ipset"@) {
        None => source.len() == 0 && destination.len() == 0,
        Some(v) => {
            let w = words(v);
            &&& w.len() == 2
            &&& (w[1] == "src"@ && source == seq![w[0]] && destination.len() == 0) || (w[1] == "dest"@ && destination
                == seq![w[0]] && source.len() == 0)
        },
    }
}

/// Whether what a rule matches, apart from interfaces and from what a translation changes, is what its options say.
pub open spec fn is_matching(s: UciSectionView, m: FirewallMatchView) -> bool {
    &&& is_family_of(s, m.family)
    &&& is_only(s, "src"@, m.source_zones)
    &&& is_only(s, "dest"@, m.destination_zones)
    &&& are_networks(s.values("src_ip"@), m.source_networks)
    &&& are_macs(s.values("src_mac"@), m.source_macs)
    &&& are_protocols(s.values("proto"@), m.protocols)
    &&& are_ranges(s.values("src_port"@), m.source_ports)
    &&& m.conntrack_states.len() == 0
    &&& are_sets(s, m.source_sets, m.destination_sets)
}

/// Whether bytes are the numbers of some texts, one for one.
pub open spec fn are_bytes(v: Seq<Seq<char>>, b: Seq<u8>) -> bool {
    v.len() == b.len() && forall|i: int| 0 <= i < b.len() ==> u8_value(#[trigger] v[i]) == Some(b[i])
}

proof fn lemma_networks(s: UciSectionView, name: Seq<char>, n: Seq<IpNetwork>)
    requires
        crate::firewall_inventory::networks_option(s, name) == Some(n),
    ensures
        are_networks(s.values(name), n),
{
    let v = s.values(name);
    let f = |r: Seq<char>| LooseNetworks::value(r);
    assert forall|i: int| 0 <= i < n.len() implies is_network(#[trigger] v[i], n[i]) by {
        assert(f(v[i]) is Some);
        assert(loose_network(v[i]) == Some(n[i]));
    }
}

proof fn lemma_ranges(s: UciSectionView, name: Seq<char>, p: Seq<PortRange>)
    requires
        crate::firewall_inventory::ports_option(s, name) == Some(p),
    ensures
        are_ranges(s.values(name), p),
{
    let v = s.values(name);
    let f = |r: Seq<char>| Ports::value(r);
    assert forall|i: int| 0 <= i < p.len() implies is_range(#[trigger] v[i], p[i]) by {
        assert(f(v[i]) is Some);
        assert(port_value(v[i]) == Some(p[i]));
        lemma_range(v[i], p[i]);
    }
}

proof fn lemma_macs(s: UciSectionView, name: Seq<char>, m: Seq<Seq<char>>)
    requires
        crate::firewall_inventory::macs_option(s, name) == Some(m),
    ensures
        are_macs(s.values(name), m),
{
    let v = s.values(name);
    let f = |r: Seq<char>| Macs::value(r);
    assert forall|i: int| 0 <= i < m.len() implies m[i] == lower_all(#[trigger] v[i]) && is_mac(m[i]) by {
        assert(f(v[i]) is Some);
        assert(crate::firewall_inventory::mac_value(v[i]) == Some(m[i]));
    }
}

proof fn lemma_protocols(s: UciSectionView, p: Seq<FirewallProtocol>)
    requires
        protocols_option(s) == Some(p),
    ensures
        are_protocols(s.values("proto"@), p),
{
    let w = all_words(Seq::empty(), s.values("proto"@), 0);
    let f = |r: Seq<char>| ProtocolWords::value(r);
    assert forall|i: int| 0 <= i < p.len() implies is_protocol(#[trigger] w[i], p[i]) by {
        assert(f(w[i]) is Some);
        assert(protocol_word(w[i]) == Some(p[i]));
    }
}

proof fn lemma_types(v: Seq<Seq<char>>, b: Seq<u8>)
    requires
        crate::parse::map_all(v, |r: Seq<char>| Bytes::value(r)) == Some(b),
    ensures
        are_bytes(v, b),
{
    let f = |r: Seq<char>| Bytes::value(r);
    assert forall|i: int| 0 <= i < b.len() implies u8_value(#[trigger] v[i]) == Some(b[i]) by {
        assert(f(v[i]) is Some);
    }
}

proof fn lemma_common(s: UciSectionView, m: FirewallMatchView)
    requires
        crate::firewall_inventory::common_matches(s) == Some(m),
    ensures
        is_matching(s, m),
        are_networks(s.values("dest_ip"@), m.destination_networks),
        are_ranges(s.values("dest_port"@), m.destination_ports),
        m.input_interfaces.len() == 0,
        m.output_interfaces.len() == 0,
{
    lemma_networks(s, "src_ip"@, m.source_networks);
    lemma_networks(s, "dest_ip"@, m.destination_networks);
    lemma_macs(s, "src_mac"@, m.source_macs);
    lemma_protocols(s, m.protocols);
    lemma_ranges(s, "src_port"@, m.source_ports);
    lemma_ranges(s, "dest_port"@, m.destination_ports);
    reveal_strlit("any");
    reveal_strlit("*");
    reveal_strlit("ipv4");
    reveal_strlit("4");
    reveal_strlit("ipv6");
    reveal_strlit("6");
    assert("any"@.len() == 3 && "*"@.len() == 1 && "ipv4"@.len() == 4 && "4"@.len() == 1);
}

proof fn lemma_messages(s: UciSectionView, m: FirewallMatchView)
    requires
        crate::firewall_inventory::common_matches(s) == Some(m),
    ensures
        are_bytes(s.values("icmp_type"@), m.icmp_types),
{
    lemma_types(s.values("icmp_type"@), m.icmp_types);
}

/// A filter rule is what its options say. It is for what comes in, goes out or passes through by its device and
/// direction, or else by which zones it names.
pub proof fn law_filter_rule_is_what_its_options_say(s: UciSectionView, defaults: Option<ZoneDefaults>)
    ensures
        firewall_object_value(s, defaults) matches Some(FirewallObjectView::FilterRule(x)) ==> {
            &&& s.section_type == "rule"@
            &&& is_owner(s, "mbed_r_"@, x.ownership)
            &&& x.enabled <==> is_on(s)
            &&& s.scalar("name"@) matches Some(n) ==> x.id == n
            &&& s.scalar("target"@) is Some && is_verdict(s.scalar("target"@)->Some_0, x.verdict)
            &&& x.reject_with is None
            &&& is_matching(s, x.matches)
            &&& are_networks(s.values("dest_ip"@), x.matches.destination_networks)
            &&& are_ranges(s.values("dest_port"@), x.matches.destination_ports)
            &&& are_bytes(s.values("icmp_type"@), x.matches.icmp_types)
            &&& match s.scalar("device"@) {
                Some(d) => (s.scalar("direction"@) == Some("in"@) && x.direction == FirewallDirection::Input
                    && x.matches.input_interfaces == seq![d] && x.matches.output_interfaces.len() == 0) || (s.scalar(
                    "direction"@,
                ) == Some("out"@) && x.direction == FirewallDirection::Output && x.matches.output_interfaces == seq![
                    d,
                ] && x.matches.input_interfaces.len() == 0),
                None => {
                    &&& s.scalar("direction"@) is None
                    &&& x.matches.input_interfaces.len() == 0
                    &&& x.matches.output_interfaces.len() == 0
                    &&& x.direction == FirewallDirection::Input <==> s.scalar("dest"@) is None
                    &&& x.direction == FirewallDirection::Output <==> s.scalar("dest"@) is Some && s.scalar("src"@)
                        is None
                    &&& x.direction == FirewallDirection::Forward <==> s.scalar("dest"@) is Some && s.scalar("src"@)
                        is Some
                },
            }
            &&& match x.rate_limit {
                None => s.scalar("limit"@) is None && !s.has("limit_burst"@),
                Some(l) => {
                    &&& s.scalar("limit"@) is Some
                    &&& ends(s.scalar("limit"@)->Some_0, "/second"@)
                    &&& u32_value(s.scalar("limit"@)->Some_0.take(s.scalar("limit"@)->Some_0.len() - 7)) == Some(
                        l.packets_per_second,
                    )
                    &&& s.scalar("limit_burst"@) is Some
                    &&& u32_value(s.scalar("limit_burst"@)->Some_0) == Some(l.burst)
                },
            }
            &&& match s.scalar("log"@) {
                Some(p) => x.log is Some && x.log->Some_0.prefix == p && x.log->Some_0.level
                    == FirewallLogLevel::Info,
                None => x.log is None,
            }
            &&& x.order == s.order
        },
{
    if let Some(FirewallObjectView::FilterRule(x)) = firewall_object_value(s, defaults) {
        lemma_kinds();
        lemma_switch(s, "enabled"@);
        let m = crate::firewall_inventory::common_matches(s)->Some_0;
        lemma_common(s, m);
        lemma_messages(s, m);
        lemma_verdict(s.scalar("target"@)->Some_0, x.verdict);
        reveal_strlit("in");
        reveal_strlit("out");
        assert("in"@.len() == 2 && "out"@.len() == 3);
        if let Some(d) = s.scalar("device"@) {
            assert(m.input_interfaces.push(d) =~= seq![d]);
            assert(m.output_interfaces.push(d) =~= seq![d]);
        }
    }
}

/// Whether an entry of a set is what a text says, by what the set matches.
pub open spec fn is_entry(kind: Seq<char>, v: Seq<char>, e: FirewallSetEntryView) -> bool {
    match e {
        FirewallSetEntryView::Network(n) => kind == "src_net"@ && is_network(v, n),
        FirewallSetEntryView::Mac(m) => kind == "src_mac"@ && m == lower_all(v) && is_mac(m),
        FirewallSetEntryView::Port(p) => kind == "src_port"@ && is_range(v, p),
    }
}

/// A set is what its options say: its entries are networks, hardware addresses or ports by what it matches.
pub proof fn law_set_is_what_its_options_say(s: UciSectionView, defaults: Option<ZoneDefaults>)
    ensures
        firewall_object_value(s, defaults) matches Some(FirewallObjectView::AddressSet(x)) ==> {
            &&& s.section_type == "ipset"@
            &&& s.scalar("name"@) == Some(x.id)
            &&& is_owner(s, "mbed_s_"@, x.ownership)
            &&& x.enabled <==> is_on(s)
            &&& is_family_of(s, x.family)
            &&& s.scalar("match"@) is Some
            &&& x.entries.len() == s.values("entry"@).len()
            &&& forall|i: int|
                0 <= i < x.entries.len() ==> is_entry(
                    s.scalar("match"@)->Some_0,
                    #[trigger] s.values("entry"@)[i],
                    x.entries[i],
                )
        },
{
    if let Some(FirewallObjectView::AddressSet(x)) = firewall_object_value(s, defaults) {
        lemma_kinds();
        lemma_switch(s, "enabled"@);
        let k = s.scalar("match"@)->Some_0;
        let v = s.values("entry"@);
        let f = |r: Seq<char>| NetworkEntries::value(r);
        let g = |r: Seq<char>| MacEntries::value(r);
        let h = |r: Seq<char>| PortEntries::value(r);
        assert forall|i: int| 0 <= i < x.entries.len() implies is_entry(k, #[trigger] v[i], x.entries[i]) by {
            if k == "src_net"@ {
                assert(f(v[i]) is Some);
            } else if k == "src_mac"@ {
                assert(g(v[i]) is Some);
            } else {
                assert(h(v[i]) is Some);
                lemma_range(v[i], x.entries[i]->Port_0);
            }
        }
    }
}

/// Whether an option gives an address, or is absent and there is none.
pub open spec fn is_target(s: UciSectionView, name: Seq<char>, a: Option<IpAddr>) -> bool {
    match s.get(name) {
        None => a is None,
        Some(v) => v.len() == 1 && a is Some && address_value(v[0]) == a,
    }
}

/// Whether an option gives ports, or is absent and there are none.
pub open spec fn is_target_port(s: UciSectionView, name: Seq<char>, p: Option<PortRange>) -> bool {
    match s.get(name) {
        None => p is None,
        Some(v) => v.len() == 1 && p is Some && is_range(v[0], p->Some_0),
    }
}

/// A translation rule is what its options say: it changes the destination in one kind of section, to an address or to
/// this host, and the source in the other, to an address or to that of the interface.
pub proof fn law_nat_rule_is_what_its_options_say(s: UciSectionView, defaults: Option<ZoneDefaults>)
    ensures
        firewall_object_value(s, defaults) matches Some(FirewallObjectView::NatRule(x)) ==> {
            &&& s.section_type == "redirect"@ || s.section_type == "nat"@
            &&& is_owner(s, "mbed_n_"@, x.ownership)
            &&& x.enabled <==> is_on(s)
            &&& s.scalar("name"@) matches Some(n) ==> x.id == n
            &&& s.scalar("target"@) is Some
            &&& is_matching(s, x.matches)
            &&& x.order == s.order
            &&& x.matches.input_interfaces.len() == 0 && x.matches.output_interfaces.len() == 0
            &&& match x.kind {
                FirewallNatKind::DestinationNat => s.section_type == "redirect"@ && lower_all(
                    s.scalar("target"@)->Some_0,
                ) == "dnat"@ && x.translation_address is Some,
                FirewallNatKind::Redirect => s.section_type == "redirect"@ && lower_all(s.scalar("target"@)->Some_0)
                    == "dnat"@ && x.translation_address is None,
                FirewallNatKind::SourceNat => s.section_type == "nat"@ && lower_all(s.scalar("target"@)->Some_0)
                    == "snat"@,
                FirewallNatKind::Masquerade => s.section_type == "nat"@ && lower_all(s.scalar("target"@)->Some_0)
                    == "masquerade"@,
            }
            &&& s.section_type == "redirect"@ ==> {
                &&& is_target(s, "dest_ip"@, x.translation_address)
                &&& is_target_port(s, "dest_port"@, x.translation_port)
                &&& are_networks(s.values("src_dip"@), x.matches.destination_networks)
                &&& are_ranges(s.values("src_dport"@), x.matches.destination_ports)
            }
            &&& s.section_type == "nat"@ ==> {
                &&& is_target(s, "snat_ip"@, x.translation_address)
                &&& is_target_port(s, "snat_port"@, x.translation_port)
                &&& are_networks(s.values("dest_ip"@), x.matches.destination_networks)
                &&& are_ranges(s.values("dest_port"@), x.matches.destination_ports)
            }
        },
{
    if let Some(FirewallObjectView::NatRule(x)) = firewall_object_value(s, defaults) {
        lemma_kinds();
        lemma_switch(s, "enabled"@);
        let m = crate::firewall_inventory::common_matches(s)->Some_0;
        lemma_common(s, m);
        if s.section_type == "redirect"@ {
            lemma_networks(s, "src_dip"@, x.matches.destination_networks);
            lemma_ranges(s, "src_dport"@, x.matches.destination_ports);
            if let Some(v) = s.get("dest_port"@) {
                lemma_range(v[0], x.translation_port->Some_0);
            }
        } else {
            if let Some(v) = s.get("snat_port"@) {
                lemma_range(v[0], x.translation_port->Some_0);
            }
        }
        reveal_strlit("snat");
        reveal_strlit("masquerade");
        assert("snat"@.len() == 4 && "masquerade"@.len() == 10);
    }
}

proof fn lemma_type(sections: Seq<UciSectionView>, t: Seq<char>, i: int)
    requires
        0 <= i <= sections.len(),
    ensures
        ({
            let k = type_from(sections, t, i);
            &&& i <= k <= sections.len()
            &&& k < sections.len() ==> sections[k].section_type == t
            &&& forall|j: int| i <= j < k ==> (#[trigger] sections[j]).section_type != t
        }),
    decreases sections.len() - i,
{
    if i < sections.len() && sections[i].section_type != t {
        lemma_type(sections, t, i + 1);
    }
}

/// The general verdicts are those of the one section that has them. Without it there are none, and two of them are
/// ambiguous.
pub proof fn law_general_verdicts_are_those_of_one_section(sections: Seq<UciSectionView>, i: int, j: int)
    ensures
        (forall|k: int| 0 <= k < sections.len() ==> (#[trigger] sections[k]).section_type != "defaults"@)
            ==> defaults_value(sections) matches Ok(None),
        0 <= i < j < sections.len() && sections[i].section_type == "defaults"@ && sections[j].section_type
            == "defaults"@ ==> defaults_value(sections) is Err,
        0 <= i < sections.len() && sections[i].section_type == "defaults"@ ==> match defaults_value(sections) {
            Ok(Some(d)) => {
                &&& sections[i].scalar("input"@) is Some && is_verdict(sections[i].scalar("input"@)->Some_0, d.input)
                &&& sections[i].scalar("output"@) is Some && is_verdict(
                    sections[i].scalar("output"@)->Some_0,
                    d.output,
                )
                &&& sections[i].scalar("forward"@) is Some && is_verdict(
                    sections[i].scalar("forward"@)->Some_0,
                    d.forward,
                )
            },
            Ok(None) => false,
            Err(_) => true,
        },
{
    lemma_type(sections, "defaults"@, 0);
    let at = type_from(sections, "defaults"@, 0);
    if at < sections.len() {
        lemma_type(sections, "defaults"@, at + 1);
        if let Ok(Some(d)) = defaults_value(sections) {
            let s = sections[at];
            lemma_verdict(s.scalar("input"@)->Some_0, d.input);
            lemma_verdict(s.scalar("output"@)->Some_0, d.output);
            lemma_verdict(s.scalar("forward"@)->Some_0, d.forward);
        }
    }
}

} // verus!
