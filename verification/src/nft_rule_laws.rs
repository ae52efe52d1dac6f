//! What an nftables ruleset is made of: a line for each rule, in the chain of its direction and with its verdict.

use vstd::prelude::*;

use crate::firewall::{byte_texts, network_texts, port_texts, protocol_name};
use crate::firewall_model::{
    FirewallAddressSetView, FirewallConntrackState, FirewallDirection, FirewallFamily, FirewallFilterRuleView,
    FirewallForwardingView, FirewallLogLevel, FirewallMatchView, FirewallNatKind, FirewallNatRuleView,
    FirewallObjectView, FirewallProtocol, FirewallRateLimit, FirewallRejectKind, FirewallSetEntryView,
    FirewallVerdict, FirewallZoneView, PortRange,
};
use crate::firewall_nft::{
    action_part, atom_set, chain_head, comment_part, context_from, context_of, empty_context, entry_text,
    entry_texts, filter_chain_text, filter_rule_text, filter_rules_text, forward_all, forward_line,
    forward_to, forwardings_text, has_name, icmp_part, indented, is_prerouting, limit_part, log_part,
    masquerades_text, match_parts, nat_chains_text, nat_rule_text, nat_rules_text, networks_part,
    placed_parts, policies_text, policy_verdict, protocol_texts, quoted_value, ruleset_text, set_block,
    set_from, set_name, set_parts, sets_text, state_texts, string_set, table_head, then_part, valued_parts,
    verdict_text, with_object, zone_line, zone_lines, NftSetType, NftablesRenderErrorView, NftablesTableState,
    RenderContextView,
};
use crate::firewall_zones::{filter_slot, interfaces_of, nat_slot, zone_from};
use crate::iptables_line_laws::{flat, lemma_insert_contains};
use crate::net::{address_format, network_format, IpAddr, IpNetwork};
use crate::text::{decimal, joined_from};
use crate::zone_laws::{
    is_ranked, is_ranked_nat, law_filter_rules_stand_in_order, law_nat_rules_stand_in_order, lemma_nat_slot,
    lemma_slot,
};

verus! {

/// The first `n` of some texts with a separator between them.
pub open spec fn listed(s: Seq<Seq<char>>, sep: Seq<char>, n: int) -> Seq<char>
    decreases n,
{
    if n <= 0 {
        Seq::empty()
    } else if n == 1 {
        s[0]
    } else {
        listed(s, sep, n - 1) + sep + s[n - 1]
    }
}

/// Some texts with a separator between them.
pub open spec fn all_listed(s: Seq<Seq<char>>, sep: Seq<char>) -> Seq<char> {
    listed(s, sep, s.len() as int)
}

proof fn lemma_joined(s: Seq<Seq<char>>, sep: Seq<char>, i: int)
    requires
        0 <= i <= s.len(),
    ensures
        joined_from(listed(s, sep, i), s, sep, i) == all_listed(s, sep),
    decreases s.len() - i,
{
    if i < s.len() {
        lemma_joined(s, sep, i + 1);
        assert(Seq::<char>::empty() + s[i] =~= s[i]);
    }
}

/// The texts that are there among the first `n` of some.
pub open spec fn kept(ps: Seq<Option<Seq<char>>>, n: int) -> Seq<Seq<char>>
    decreases n,
{
    if n <= 0 {
        Seq::empty()
    } else {
        match ps[n - 1] {
            None => kept(ps, n - 1),
            Some(p) => kept(ps, n - 1).push(p),
        }
    }
}

/// A key with one value, or with several in braces.
pub open spec fn keyed(key: Seq<char>, values: Seq<Seq<char>>) -> Seq<char> {
    if values.len() == 1 {
        key + " "@ + values[0]
    } else {
        key + " { "@ + all_listed(values, ", "@) + " }"@
    }
}

/// A text in quotes.
pub open spec fn in_quotes(s: Seq<char>) -> Seq<char> {
    "\""@ + s + "\""@
}

/// Some texts, each in quotes.
pub open spec fn all_in_quotes(s: Seq<Seq<char>>) -> Seq<Seq<char>> {
    Seq::new(s.len(), |i: int| in_quotes(s[i]))
}

/// A key with some values, where there are any.
pub open spec fn some_keyed(key: Seq<char>, values: Seq<Seq<char>>) -> Option<Seq<char>> {
    if values.len() == 0 {
        None
    } else {
        Some(keyed(key, values))
    }
}

/// The key of networks of the family of the first.
pub open spec fn network_key(networks: Seq<IpNetwork>, direction: Seq<char>) -> Seq<char> {
    match networks[0].address {
        IpAddr::V4(_) => "ip "@ + direction,
        IpAddr::V6(_) => "ip6 "@ + direction,
    }
}

/// The texts of some networks.
pub open spec fn networks_words(networks: Seq<IpNetwork>) -> Seq<Seq<char>> {
    Seq::new(networks.len(), |i: int| network_format(networks[i]))
}

/// The text of a range of ports: one number, or two with a hyphen between them.
pub open spec fn ports_word(p: PortRange) -> Seq<char> {
    if p.start == p.end {
        decimal(p.start as nat)
    } else {
        decimal(p.start as nat) + "-"@ + decimal(p.end as nat)
    }
}

/// The texts of some ranges of ports.
pub open spec fn ports_words(ports: Seq<PortRange>) -> Seq<Seq<char>> {
    Seq::new(ports.len(), |i: int| ports_word(ports[i]))
}

/// The word of a protocol.
pub open spec fn transport_word(p: FirewallProtocol) -> Seq<char> {
    match p {
        FirewallProtocol::Tcp => "tcp"@,
        FirewallProtocol::Udp => "udp"@,
        FirewallProtocol::Icmp => "icmp"@,
        FirewallProtocol::Icmpv6 => "icmpv6"@,
        FirewallProtocol::Esp => "esp"@,
        FirewallProtocol::Ah => "ah"@,
        FirewallProtocol::Gre => "gre"@,
    }
}

/// The words of some protocols.
pub open spec fn transport_words(p: Seq<FirewallProtocol>) -> Seq<Seq<char>> {
    Seq::new(p.len(), |i: int| transport_word(p[i]))
}

/// The word of a connection state.
pub open spec fn track_word(s: FirewallConntrackState) -> Seq<char> {
    match s {
        FirewallConntrackState::New => "new"@,
        FirewallConntrackState::Established => "established"@,
        FirewallConntrackState::Related => "related"@,
        FirewallConntrackState::Invalid => "invalid"@,
    }
}

/// The words of some connection states.
pub open spec fn track_words(s: Seq<FirewallConntrackState>) -> Seq<Seq<char>> {
    Seq::new(s.len(), |i: int| track_word(s[i]))
}

/// The decimal texts of some bytes.
pub open spec fn bytes_words(s: Seq<u8>) -> Seq<Seq<char>> {
    Seq::new(s.len(), |i: int| decimal(s[i] as nat))
}

/// The words of a family, where a rule is of one.
pub open spec fn family_word(f: FirewallFamily) -> Option<Seq<char>> {
    match f {
        FirewallFamily::Any => None,
        FirewallFamily::Ipv4 => Some("meta nfproto ipv4"@),
        FirewallFamily::Ipv6 => Some("meta nfproto ipv6"@),
    }
}

/// The key of types of control messages.
pub open spec fn message_key(m: FirewallMatchView) -> Seq<char> {
    if m.protocols.contains(FirewallProtocol::Icmp) {
        "icmp type"@
    } else {
        "icmpv6 type"@
    }
}

/// The key of a set, for one end of a connection.
pub open spec fn set_key(t: NftSetType, source: bool) -> Seq<char> {
    if source {
        match t {
            NftSetType::Ipv4Network => "ip saddr"@,
            NftSetType::Ipv6Network => "ip6 saddr"@,
            NftSetType::Mac => "ether saddr"@,
            NftSetType::Port => "th sport"@,
        }
    } else {
        match t {
            NftSetType::Ipv4Network => "ip daddr"@,
            NftSetType::Ipv6Network => "ip6 daddr"@,
            NftSetType::Mac => "ether daddr"@,
            NftSetType::Port => "th dport"@,
        }
    }
}

/// The reference to a set.
pub open spec fn set_word(c: RenderContextView, id: Seq<char>, source: bool) -> Seq<char> {
    let s = set_from(c.sets, id, 0)->Some_0;
    set_key(s.value_type, source) + " @"@ + s.name
}

/// The references to some sets.
pub open spec fn set_words(c: RenderContextView, ids: Seq<Seq<char>>, source: bool) -> Seq<Seq<char>> {
    Seq::new(ids.len(), |i: int| set_word(c, ids[i], source))
}

/// What a rule matches, apart from sets: its family, the interfaces of its zones, its interfaces, networks, hardware
/// addresses, protocols, ports, types of control messages and connection states.
pub open spec fn match_words(
    c: RenderContextView,
    m: FirewallMatchView,
    direction: FirewallDirection,
) -> Seq<Option<Seq<char>>> {
    seq![
        family_word(m.family),
        some_keyed(
            match direction {
                FirewallDirection::Input => "iifname"@,
                FirewallDirection::Output => "oifname"@,
                FirewallDirection::Forward => "iifname"@,
            },
            all_in_quotes(interfaces_of(c.zones, m.source_zones)->Some_0),
        ),
        some_keyed("oifname"@, all_in_quotes(interfaces_of(c.zones, m.destination_zones)->Some_0)),
        some_keyed("iifname"@, all_in_quotes(m.input_interfaces)),
        some_keyed("oifname"@, all_in_quotes(m.output_interfaces)),
        some_keyed(network_key(m.source_networks, "saddr"@), networks_words(m.source_networks)),
        some_keyed(network_key(m.destination_networks, "daddr"@), networks_words(m.destination_networks)),
        some_keyed("ether saddr"@, m.source_macs),
        some_keyed("meta l4proto"@, transport_words(m.protocols)),
        some_keyed("th sport"@, ports_words(m.source_ports)),
        some_keyed("th dport"@, ports_words(m.destination_ports)),
        some_keyed(message_key(m), bytes_words(m.icmp_types)),
        some_keyed("ct state"@, track_words(m.conntrack_states)),
    ]
}

proof fn lemma_keyed(key: Seq<char>, values: Seq<Seq<char>>)
    ensures
        atom_set(key, values) == keyed(key, values),
{
    lemma_joined(values, ", "@, 0);
}

proof fn lemma_string_set(key: Seq<char>, values: Seq<Seq<char>>)
    requires
        string_set(key, values) is Ok,
    ensures
        string_set(key, values)->Ok_0 == keyed(key, all_in_quotes(values)),
{
    let f = |s: Seq<char>| quoted_value(s);
    let q = crate::parse::map_all(values, f)->Some_0;
    assert forall|i: int| 0 <= i < values.len() implies q[i] == all_in_quotes(values)[i] by {
        assert(f(values[i]) is Some);
    }
    assert(q =~= all_in_quotes(values));
    lemma_keyed(key, q);
}

proof fn lemma_placed(
    c: RenderContextView,
    m: FirewallMatchView,
    direction: FirewallDirection,
    sources: Seq<Seq<char>>,
    destinations: Seq<Seq<char>>,
)
    requires
        interfaces_of(c.zones, m.source_zones) == Some(sources),
        interfaces_of(c.zones, m.destination_zones) == Some(destinations),
        placed_parts(m, direction, sources, destinations) is Ok,
    ensures
        placed_parts(m, direction, sources, destinations)->Ok_0 == kept(match_words(c, m, direction), 5),
{
    let w = match_words(c, m, direction);
    reveal_with_fuel(kept, 6);
    let key = if direction == FirewallDirection::Output {
        "oifname"@
    } else {
        "iifname"@
    };
    assert(kept(w, 1) =~= crate::firewall_nft::family_parts(m.family));
    if sources.len() > 0 {
        lemma_string_set(key, sources);
    }
    let p1 = then_part(Ok(kept(w, 1)), sources.len() > 0, string_set(key, sources));
    assert(p1->Ok_0 == kept(w, 2));
    if destinations.len() > 0 {
        lemma_string_set("oifname"@, destinations);
    }
    if m.input_interfaces.len() > 0 {
        lemma_string_set("iifname"@, m.input_interfaces);
    }
    if m.output_interfaces.len() > 0 {
        lemma_string_set("oifname"@, m.output_interfaces);
    }
}

proof fn lemma_lists(m: FirewallMatchView)
    ensures
        network_texts(m.source_networks) == networks_words(m.source_networks),
        network_texts(m.destination_networks) == networks_words(m.destination_networks),
        protocol_texts(m.protocols) == transport_words(m.protocols),
        port_texts(m.source_ports) == ports_words(m.source_ports),
        port_texts(m.destination_ports) == ports_words(m.destination_ports),
        state_texts(m.conntrack_states) == track_words(m.conntrack_states),
{
    assert(network_texts(m.source_networks) =~= networks_words(m.source_networks));
    assert(network_texts(m.destination_networks) =~= networks_words(m.destination_networks));
    assert forall|x: FirewallProtocol| #[trigger] protocol_name(x) == transport_word(x) by {}
    assert(protocol_texts(m.protocols) =~= transport_words(m.protocols));
    assert(port_texts(m.source_ports) =~= ports_words(m.source_ports));
    assert(port_texts(m.destination_ports) =~= ports_words(m.destination_ports));
    assert(state_texts(m.conntrack_states) =~= track_words(m.conntrack_states));
}

proof fn lemma_bytes(s: Seq<u8>)
    ensures
        byte_texts(s) == bytes_words(s),
{
    assert(byte_texts(s) =~= bytes_words(s));
}

proof fn lemma_valued(c: RenderContextView, m: FirewallMatchView, direction: FirewallDirection)
    requires
        valued_parts(Ok(kept(match_words(c, m, direction), 5)), m) is Ok,
    ensures
        valued_parts(Ok(kept(match_words(c, m, direction), 5)), m)->Ok_0 == kept(match_words(c, m, direction), 13),
{
    let w = match_words(c, m, direction);
    lemma_lists(m);
    lemma_bytes(m.icmp_types);
    if m.source_networks.len() > 0 {
        lemma_keyed(network_key(m.source_networks, "saddr"@), networks_words(m.source_networks));
    }
    let p5 = then_part(Ok(kept(w, 5)), m.source_networks.len() > 0, networks_part("saddr"@, m.source_networks));
    assert(p5->Ok_0 == kept(w, 6));
    if m.destination_networks.len() > 0 {
        lemma_keyed(network_key(m.destination_networks, "daddr"@), networks_words(m.destination_networks));
    }
    let p6 = then_part(p5, m.destination_networks.len() > 0, networks_part("daddr"@, m.destination_networks));
    assert(p6->Ok_0 == kept(w, 7));
    lemma_keyed("ether saddr"@, m.source_macs);
    lemma_keyed("meta l4proto"@, transport_words(m.protocols));
    lemma_keyed("th sport"@, ports_words(m.source_ports));
    lemma_keyed("th dport"@, ports_words(m.destination_ports));
    lemma_keyed("ct state"@, track_words(m.conntrack_states));
    lemma_keyed(message_key(m), bytes_words(m.icmp_types));
    let p7 = then_part(p6, m.source_macs.len() > 0, Ok(atom_set("ether saddr"@, m.source_macs)));
    assert(p7->Ok_0 == kept(w, 8));
    let p8 = then_part(p7, m.protocols.len() > 0, Ok(atom_set("meta l4proto"@, protocol_texts(m.protocols))));
    assert(p8->Ok_0 == kept(w, 9));
    let p9 = then_part(p8, m.source_ports.len() > 0, Ok(atom_set("th sport"@, port_texts(m.source_ports))));
    assert(p9->Ok_0 == kept(w, 10));
    let p10 = then_part(
        p9,
        m.destination_ports.len() > 0,
        Ok(atom_set("th dport"@, port_texts(m.destination_ports))),
    );
    assert(p10->Ok_0 == kept(w, 11));
    let p11 = then_part(p10, m.icmp_types.len() > 0, icmp_part(m));
    assert(p11->Ok_0 == kept(w, 12));
}

proof fn lemma_set_parts(
    parts: Seq<Seq<char>>,
    c: RenderContextView,
    ids: Seq<Seq<char>>,
    source: bool,
    i: int,
)
    requires
        0 <= i <= ids.len(),
        set_parts(parts, c.sets, ids, source, i) is Ok,
    ensures
        set_parts(parts, c.sets, ids, source, i)->Ok_0 == parts + set_words(c, ids, source).skip(i),
    decreases ids.len() - i,
{
    let w = set_words(c, ids, source);
    if i < ids.len() {
        let s = set_from(c.sets, ids[i], 0)->Some_0;
        assert(w[i] == set_word(c, ids[i], source));
        let next = parts.push(w[i]);
        lemma_set_parts(next, c, ids, source, i + 1);
        assert(next + w.skip(i + 1) =~= parts + w.skip(i));
    } else {
        assert(parts + w.skip(i) =~= parts);
    }
}

/// The parts of a rule that say what it matches.
pub open spec fn matching(c: RenderContextView, m: FirewallMatchView, direction: FirewallDirection) -> Seq<Seq<char>> {
    kept(match_words(c, m, direction), 13) + set_words(c, m.source_sets, true) + set_words(
        c,
        m.destination_sets,
        false,
    )
}

/// A rule matches what its properties say: each that it has stands there with all its values, in a fixed order, and
/// nothing else does.
pub proof fn law_rule_matches_its_properties(
    c: RenderContextView,
    m: FirewallMatchView,
    direction: FirewallDirection,
)
    requires
        match_parts(c, m, direction) is Ok,
    ensures
        match_parts(c, m, direction)->Ok_0 == matching(c, m, direction),
{
    let sources = interfaces_of(c.zones, m.source_zones)->Some_0;
    let destinations = interfaces_of(c.zones, m.destination_zones)->Some_0;
    lemma_placed(c, m, direction, sources, destinations);
    lemma_valued(c, m, direction);
    let p = kept(match_words(c, m, direction), 13);
    lemma_set_parts(p, c, m.source_sets, true, 0);
    let a = set_words(c, m.source_sets, true);
    assert(a.skip(0) =~= a);
    lemma_set_parts(p + a, c, m.destination_sets, false, 0);
    let b = set_words(c, m.destination_sets, false);
    assert(b.skip(0) =~= b);
}

/// The words of a verdict.
pub open spec fn decision(v: FirewallVerdict, r: Option<FirewallRejectKind>) -> Seq<char> {
    match v {
        FirewallVerdict::Accept => "accept"@,
        FirewallVerdict::Drop => "drop"@,
        FirewallVerdict::Reject => match r {
            Some(FirewallRejectKind::TcpReset) => "reject with tcp reset"@,
            Some(FirewallRejectKind::IcmpPortUnreachable) => "reject with icmp type port-unreachable"@,
            Some(FirewallRejectKind::IcmpHostUnreachable) => "reject with icmp type host-unreachable"@,
            Some(FirewallRejectKind::Icmp6PortUnreachable) => "reject with icmpv6 type port-unreachable"@,
            None => "reject"@,
        },
    }
}

/// The words of a limit.
pub open spec fn rate_words(l: FirewallRateLimit) -> Seq<char> {
    "limit rate "@ + decimal(l.packets_per_second as nat) + "/second burst "@ + decimal(l.burst as nat)
        + " packets"@
}

/// The word of a level of logging.
pub open spec fn severity(l: FirewallLogLevel) -> Seq<char> {
    match l {
        FirewallLogLevel::Emergency => "emerg"@,
        FirewallLogLevel::Alert => "alert"@,
        FirewallLogLevel::Critical => "crit"@,
        FirewallLogLevel::Error => "err"@,
        FirewallLogLevel::Warning => "warn"@,
        FirewallLogLevel::Notice => "notice"@,
        FirewallLogLevel::Info => "info"@,
        FirewallLogLevel::Debug => "debug"@,
    }
}

/// What a filter rule does: its limit and its logging, where it has them, its verdict and its name.
pub open spec fn doing(r: FirewallFilterRuleView) -> Seq<Seq<char>> {
    (match r.rate_limit {
        Some(l) => seq![rate_words(l)],
        None => Seq::empty(),
    }) + (match r.log {
        Some(l) => seq!["log prefix "@ + in_quotes(l.prefix) + " level "@ + severity(l.level)],
        None => Seq::empty(),
    }) + seq![decision(r.verdict, r.reject_with), "comment "@ + in_quotes(r.id)]
}

/// The text of a filter rule is what it matches and what it does.
pub proof fn law_filter_rule_says_what_it_does(c: RenderContextView, r: FirewallFilterRuleView)
    requires
        filter_rule_text(c, r) is Ok,
    ensures
        filter_rule_text(c, r)->Ok_0 == all_listed(matching(c, r.matches, r.direction) + doing(r), " "@),
        r.verdict == FirewallVerdict::Reject <==> r.reject_with is Some,
{
    law_rule_matches_its_properties(c, r.matches, r.direction);
    let p = matching(c, r.matches, r.direction);
    lemma_doing(p, r);
    lemma_joined(p + doing(r), " "@, 0);
}

spec fn decided_parts(p: Seq<Seq<char>>, r: FirewallFilterRuleView) -> Result<Seq<Seq<char>>, NftablesRenderErrorView> {
    let limited = then_part(Ok(p), r.rate_limit is Some, Ok(limit_part(r.rate_limit)));
    let logged = then_part(limited, r.log is Some, log_part(r));
    let decided = then_part(logged, true, verdict_text(r.verdict, r.reject_with));
    then_part(decided, true, comment_part(r.id))
}

#[verifier::rlimit(40)]
proof fn lemma_doing(p: Seq<Seq<char>>, r: FirewallFilterRuleView)
    requires
        decided_parts(p, r) is Ok,
    ensures
        decided_parts(p, r)->Ok_0 == p + doing(r),
        r.verdict == FirewallVerdict::Reject <==> r.reject_with is Some,
{
    let a: Seq<Seq<char>> = match r.rate_limit {
        Some(l) => seq![rate_words(l)],
        None => Seq::empty(),
    };
    let b: Seq<Seq<char>> = match r.log {
        Some(l) => seq!["log prefix "@ + in_quotes(l.prefix) + " level "@ + severity(l.level)],
        None => Seq::empty(),
    };
    let v = decision(r.verdict, r.reject_with);
    let n = "comment "@ + in_quotes(r.id);
    let limited = then_part(Ok(p), r.rate_limit is Some, Ok(limit_part(r.rate_limit)));
    assert(limited->Ok_0 =~= p + a);
    let logged = then_part(limited, r.log is Some, log_part(r));
    assert(logged->Ok_0 =~= p + a + b);
    assert(p + a + b =~= p + (a + b));
    assert((p + (a + b)).push(v).push(n) =~= p + (a + b + seq![v, n]));
}

/// The address, with the ports where there are any, that a connection is translated to.
pub open spec fn destination_words(a: IpAddr, p: Option<PortRange>) -> Seq<char> {
    match (a, p) {
        (IpAddr::V4(_), None) => " ip to "@ + address_format(a),
        (IpAddr::V6(_), None) => " ip6 to "@ + address_format(a),
        (IpAddr::V4(_), Some(p)) => " ip to "@ + (address_format(a) + ":"@ + ports_word(p)),
        (IpAddr::V6(_), Some(p)) => " ip6 to "@ + ("["@ + address_format(a) + "]:"@ + ports_word(p)),
    }
}

/// The words of a translation.
pub open spec fn translating(r: FirewallNatRuleView) -> Seq<char> {
    match r.kind {
        FirewallNatKind::Masquerade => "masquerade"@,
        FirewallNatKind::Redirect => "redirect to :"@ + ports_word(r.translation_port->Some_0),
        FirewallNatKind::DestinationNat => "dnat"@ + destination_words(
            r.translation_address->Some_0,
            r.translation_port,
        ),
        FirewallNatKind::SourceNat => "snat"@ + destination_words(r.translation_address->Some_0, r.translation_port),
    }
}

/// The direction in which what a translation rule matches is read.
pub open spec fn hook_direction(k: FirewallNatKind) -> FirewallDirection {
    match k {
        FirewallNatKind::DestinationNat => FirewallDirection::Input,
        FirewallNatKind::Redirect => FirewallDirection::Input,
        FirewallNatKind::SourceNat => FirewallDirection::Forward,
        FirewallNatKind::Masquerade => FirewallDirection::Forward,
    }
}

/// The text of a translation rule is what it matches, what it translates to and its name.
pub proof fn law_nat_rule_says_what_it_does(c: RenderContextView, r: FirewallNatRuleView)
    requires
        nat_rule_text(c, r) is Ok,
    ensures
        nat_rule_text(c, r)->Ok_0 == all_listed(
            matching(c, r.matches, hook_direction(r.kind)) + seq![translating(r), "comment "@ + in_quotes(r.id)],
            " "@,
        ),
        r.kind == FirewallNatKind::Redirect ==> r.translation_port is Some,
        r.kind == FirewallNatKind::DestinationNat || r.kind == FirewallNatKind::SourceNat ==> r.translation_address
            is Some,
{
    let direction = hook_direction(r.kind);
    law_rule_matches_its_properties(c, r.matches, direction);
    let p = matching(c, r.matches, direction);
    let acted = then_part(Ok(p), true, action_part(r));
    let all = then_part(acted, true, comment_part(r.id))->Ok_0;
    assert(action_part(r)->Ok_0 == translating(r)) by {
        if let Some(a) = r.translation_address {
            let e = crate::firewall_nft::endpoint(a, r.translation_port);
            assert("dnat"@ + " ip to "@ + e =~= "dnat"@ + (" ip to "@ + e));
            assert("dnat"@ + " ip6 to "@ + e =~= "dnat"@ + (" ip6 to "@ + e));
            assert("snat"@ + " ip to "@ + e =~= "snat"@ + (" ip to "@ + e));
            assert("snat"@ + " ip6 to "@ + e =~= "snat"@ + (" ip6 to "@ + e));
        }
    }
    assert(all =~= p + seq![translating(r), "comment "@ + in_quotes(r.id)]);
    lemma_joined(all, " "@, 0);
}

/// A rule on a line of its own.
pub open spec fn on_line(text: Seq<char>) -> Seq<char> {
    "        "@ + text + "\n"@
}

/// The line of a filter rule in the chain of a direction: one where it is enabled and of the direction.
pub open spec fn filter_line(c: RenderContextView, r: FirewallFilterRuleView, direction: FirewallDirection) -> Seq<char> {
    if r.enabled && r.direction == direction {
        on_line(all_listed(matching(c, r.matches, r.direction) + doing(r), " "@))
    } else {
        Seq::empty()
    }
}

proof fn lemma_filter_lines(acc: Seq<char>, c: RenderContextView, direction: FirewallDirection, i: int)
    requires
        0 <= i <= c.filter_rules.len(),
        filter_rules_text(acc, c, direction, i) is Ok,
    ensures
        filter_rules_text(acc, c, direction, i)->Ok_0 == acc + flat(
            |k: int| filter_line(c, c.filter_rules[k], direction),
            i,
            c.filter_rules.len() as int,
        ),
    decreases c.filter_rules.len() - i,
{
    let f = |k: int| filter_line(c, c.filter_rules[k], direction);
    let n = c.filter_rules.len() as int;
    if i < n {
        let r = c.filter_rules[i];
        assert(f(i) == filter_line(c, r, direction));
        if !(r.enabled && r.direction == direction) {
            lemma_filter_lines(acc, c, direction, i + 1);
            assert(acc + flat(f, i + 1, n) =~= acc + (f(i) + flat(f, i + 1, n)));
        } else {
            law_filter_rule_says_what_it_does(c, r);
            let t = filter_rule_text(c, r)->Ok_0;
            lemma_filter_lines(acc + indented(t), c, direction, i + 1);
            assert(f(i) == indented(t));
            assert(acc + f(i) + flat(f, i + 1, n) =~= acc + (f(i) + flat(f, i + 1, n)));
        }
    } else {
        assert(acc + flat(f, i, n) =~= acc);
    }
}

/// The line of a translation rule before the route is chosen or behind it.
pub open spec fn nat_line(c: RenderContextView, r: FirewallNatRuleView, prerouting: bool) -> Seq<char> {
    if r.enabled && prerouting == (r.kind == FirewallNatKind::DestinationNat || r.kind == FirewallNatKind::Redirect) {
        on_line(
            all_listed(
                matching(c, r.matches, hook_direction(r.kind)) + seq![
                    translating(r),
                    "comment "@ + in_quotes(r.id),
                ],
                " "@,
            ),
        )
    } else {
        Seq::empty()
    }
}

proof fn lemma_nat_lines(acc: Seq<char>, c: RenderContextView, prerouting: bool, i: int)
    requires
        0 <= i <= c.nat_rules.len(),
        nat_rules_text(acc, c, prerouting, i) is Ok,
    ensures
        nat_rules_text(acc, c, prerouting, i)->Ok_0 == acc + flat(
            |k: int| nat_line(c, c.nat_rules[k], prerouting),
            i,
            c.nat_rules.len() as int,
        ),
    decreases c.nat_rules.len() - i,
{
    let f = |k: int| nat_line(c, c.nat_rules[k], prerouting);
    let n = c.nat_rules.len() as int;
    if i < n {
        let r = c.nat_rules[i];
        assert(f(i) == nat_line(c, r, prerouting));
        if !(r.enabled && is_prerouting(r.kind) == prerouting) {
            lemma_nat_lines(acc, c, prerouting, i + 1);
            assert(acc + flat(f, i + 1, n) =~= acc + (f(i) + flat(f, i + 1, n)));
        } else {
            law_nat_rule_says_what_it_does(c, r);
            let t = nat_rule_text(c, r)->Ok_0;
            lemma_nat_lines(acc + indented(t), c, prerouting, i + 1);
            assert(f(i) == indented(t));
            assert(acc + f(i) + flat(f, i + 1, n) =~= acc + (f(i) + flat(f, i + 1, n)));
        }
    } else {
        assert(acc + flat(f, i, n) =~= acc);
    }
}

/// The line that lets connections pass from one interface to another.
pub open spec fn passing(input: Seq<char>, output: Seq<char>, id: Seq<char>) -> Seq<char> {
    "        iifname "@ + in_quotes(input) + " oifname "@ + in_quotes(output) + " accept comment "@ + in_quotes(id)
        + "\n"@
}

/// The lines that let connections pass from one interface to some others.
pub open spec fn passings(input: Seq<char>, outputs: Seq<Seq<char>>, id: Seq<char>) -> Seq<char> {
    flat(|j: int| passing(input, outputs[j], id), 0, outputs.len() as int)
}

/// The lines of a forwarding: from each interface of its source to each of its destination.
pub open spec fn forwarding_lines(c: RenderContextView, f: FirewallForwardingView) -> Seq<char> {
    if f.enabled {
        let s = zone_from(c.zones, f.source_zone, 0)->Some_0.networks;
        let t = zone_from(c.zones, f.destination_zone, 0)->Some_0.networks;
        flat(|i: int| passings(s[i], t, f.id), 0, s.len() as int)
    } else {
        Seq::empty()
    }
}

proof fn lemma_forward_to(acc: Seq<char>, input: Seq<char>, outputs: Seq<Seq<char>>, id: Seq<char>, j: int)
    requires
        0 <= j <= outputs.len(),
        forward_to(acc, input, outputs, id, j) is Some,
    ensures
        forward_to(acc, input, outputs, id, j)->Some_0 == acc + flat(
            |k: int| passing(input, outputs[k], id),
            j,
            outputs.len() as int,
        ),
    decreases outputs.len() - j,
{
    let f = |k: int| passing(input, outputs[k], id);
    let n = outputs.len() as int;
    if j < n {
        let l = forward_line(input, outputs[j], id)->Some_0;
        assert(f(j) == l);
        lemma_forward_to(acc + l, input, outputs, id, j + 1);
        assert(acc + f(j) + flat(f, j + 1, n) =~= acc + (f(j) + flat(f, j + 1, n)));
    } else {
        assert(acc + flat(f, j, n) =~= acc);
    }
}

proof fn lemma_forward_all(acc: Seq<char>, inputs: Seq<Seq<char>>, outputs: Seq<Seq<char>>, id: Seq<char>, i: int)
    requires
        0 <= i <= inputs.len(),
        forward_all(acc, inputs, outputs, id, i) is Some,
    ensures
        forward_all(acc, inputs, outputs, id, i)->Some_0 == acc + flat(
            |k: int| passings(inputs[k], outputs, id),
            i,
            inputs.len() as int,
        ),
    decreases inputs.len() - i,
{
    let f = |k: int| passings(inputs[k], outputs, id);
    let n = inputs.len() as int;
    if i < n {
        lemma_forward_to(acc, inputs[i], outputs, id, 0);
        let next = forward_to(acc, inputs[i], outputs, id, 0)->Some_0;
        lemma_forward_all(next, inputs, outputs, id, i + 1);
        assert(f(i) == passings(inputs[i], outputs, id));
        assert(acc + f(i) + flat(f, i + 1, n) =~= acc + (f(i) + flat(f, i + 1, n)));
    } else {
        assert(acc + flat(f, i, n) =~= acc);
    }
}

proof fn lemma_forwardings(acc: Seq<char>, c: RenderContextView, count: int, i: int)
    requires
        0 <= i <= c.forwardings.len(),
        forwardings_text(acc, c, count, i) is Ok,
    ensures
        forwardings_text(acc, c, count, i)->Ok_0 == acc + flat(
            |k: int| forwarding_lines(c, c.forwardings[k]),
            i,
            c.forwardings.len() as int,
        ),
    decreases c.forwardings.len() - i,
{
    let f = |k: int| forwarding_lines(c, c.forwardings[k]);
    let n = c.forwardings.len() as int;
    if i < n {
        assert(f(i) == forwarding_lines(c, c.forwardings[i]));
        if !c.forwardings[i].enabled {
            lemma_forwardings(acc, c, count, i + 1);
            assert(acc + flat(f, i + 1, n) =~= acc + (f(i) + flat(f, i + 1, n)));
        } else {
            let s = zone_from(c.zones, c.forwardings[i].source_zone, 0)->Some_0.networks;
            let t = zone_from(c.zones, c.forwardings[i].destination_zone, 0)->Some_0.networks;
            lemma_forward_all(acc, s, t, c.forwardings[i].id, 0);
            let next = forward_all(acc, s, t, c.forwardings[i].id, 0)->Some_0;
            lemma_forwardings(next, c, count + s.len() * t.len(), i + 1);
            assert(acc + f(i) + flat(f, i + 1, n) =~= acc + (f(i) + flat(f, i + 1, n)));
        }
    } else {
        assert(acc + flat(f, i, n) =~= acc);
    }
}

/// The line of an interface of a zone.
pub open spec fn interface_line(key: Seq<char>, interface: Seq<char>, action: Seq<char>, label: Seq<char>) -> Seq<char> {
    "        "@ + key + " "@ + in_quotes(interface) + " "@ + action + " comment "@ + in_quotes(label) + "\n"@
}

/// The lines of the interfaces of a zone.
pub open spec fn interface_lines(
    key: Seq<char>,
    interfaces: Seq<Seq<char>>,
    action: Seq<char>,
    label: Seq<char>,
) -> Seq<char> {
    flat(|i: int| interface_line(key, interfaces[i], action, label), 0, interfaces.len() as int)
}

proof fn lemma_zone_lines(
    acc: Seq<char>,
    key: Seq<char>,
    interfaces: Seq<Seq<char>>,
    action: Seq<char>,
    label: Seq<char>,
    i: int,
)
    requires
        0 <= i <= interfaces.len(),
        zone_lines(acc, key, interfaces, action, label, i) is Some,
    ensures
        zone_lines(acc, key, interfaces, action, label, i)->Some_0 == acc + flat(
            |i: int| interface_line(key, interfaces[i], action, label),
            i,
            interfaces.len() as int,
        ),
    decreases interfaces.len() - i,
{
    let f = |i: int| interface_line(key, interfaces[i], action, label);
    let n = interfaces.len() as int;
    if i < n {
        let l = zone_line(key, interfaces[i], action, label)->Some_0;
        assert(f(i) == l);
        lemma_zone_lines(acc + l, key, interfaces, action, label, i + 1);
        assert(acc + f(i) + flat(f, i + 1, n) =~= acc + (f(i) + flat(f, i + 1, n)));
    } else {
        assert(acc + flat(f, i, n) =~= acc);
    }
}

/// The word of a verdict of a zone.
pub open spec fn zone_decision(v: FirewallVerdict) -> Seq<char> {
    match v {
        FirewallVerdict::Accept => "accept"@,
        FirewallVerdict::Drop => "drop"@,
        FirewallVerdict::Reject => "reject"@,
    }
}

/// The lines of a zone in the chain of a direction: what it does with what comes in, goes out or passes through.
pub open spec fn zone_text(z: FirewallZoneView, direction: FirewallDirection) -> Seq<char> {
    if z.enabled {
        match direction {
            FirewallDirection::Input => interface_lines(
                "iifname"@,
                z.networks,
                zone_decision(z.input),
                "zone:"@ + z.id,
            ),
            FirewallDirection::Output => interface_lines(
                "oifname"@,
                z.networks,
                zone_decision(z.output),
                "zone:"@ + z.id,
            ),
            FirewallDirection::Forward => interface_lines(
                "iifname"@,
                z.networks,
                zone_decision(z.forward),
                "zone:"@ + z.id,
            ),
        }
    } else {
        Seq::empty()
    }
}

proof fn lemma_policies(acc: Seq<char>, zones: Seq<FirewallZoneView>, direction: FirewallDirection, i: int)
    requires
        0 <= i <= zones.len(),
        policies_text(acc, zones, direction, i) is Ok,
    ensures
        policies_text(acc, zones, direction, i)->Ok_0 == acc + flat(
            |k: int| zone_text(zones[k], direction),
            i,
            zones.len() as int,
        ),
    decreases zones.len() - i,
{
    let f = |k: int| zone_text(zones[k], direction);
    let n = zones.len() as int;
    if i < n {
        assert(f(i) == zone_text(zones[i], direction));
        if !zones[i].enabled {
            lemma_policies(acc, zones, direction, i + 1);
            assert(acc + flat(f, i + 1, n) =~= acc + (f(i) + flat(f, i + 1, n)));
        } else {
            let key = if direction == FirewallDirection::Output {
                "oifname"@
            } else {
                "iifname"@
            };
            let action = zone_decision(policy_verdict(zones[i], direction));
            let label = "zone:"@ + zones[i].id;
            assert(action == crate::firewall_nft::verdict_name(policy_verdict(zones[i], direction)));
            lemma_zone_lines(acc, key, zones[i].networks, action, label, 0);
            let next = zone_lines(acc, key, zones[i].networks, action, label, 0)->Some_0;
            assert(f(i) == interface_lines(key, zones[i].networks, action, label));
            lemma_policies(next, zones, direction, i + 1);
            assert(acc + f(i) + flat(f, i + 1, n) =~= acc + (f(i) + flat(f, i + 1, n)));
        }
    } else {
        assert(acc + flat(f, i, n) =~= acc);
    }
}

/// The lines of a zone that hides what is behind it.
pub open spec fn hiding_text(z: FirewallZoneView) -> Seq<char> {
    if z.enabled && z.masquerade {
        interface_lines("oifname"@, z.networks, "masquerade"@, "zone-masq:"@ + z.id)
    } else {
        Seq::empty()
    }
}

proof fn lemma_masquerades(acc: Seq<char>, zones: Seq<FirewallZoneView>, i: int)
    requires
        0 <= i <= zones.len(),
        masquerades_text(acc, zones, i) is Ok,
    ensures
        masquerades_text(acc, zones, i)->Ok_0 == acc + flat(|k: int| hiding_text(zones[k]), i, zones.len() as int),
    decreases zones.len() - i,
{
    let f = |k: int| hiding_text(zones[k]);
    let n = zones.len() as int;
    if i < n {
        assert(f(i) == hiding_text(zones[i]));
        if !(zones[i].enabled && zones[i].masquerade) {
            lemma_masquerades(acc, zones, i + 1);
            assert(acc + flat(f, i + 1, n) =~= acc + (f(i) + flat(f, i + 1, n)));
        } else {
            let label = "zone-masq:"@ + zones[i].id;
            lemma_zone_lines(acc, "oifname"@, zones[i].networks, "masquerade"@, label, 0);
            let next = zone_lines(acc, "oifname"@, zones[i].networks, "masquerade"@, label, 0)->Some_0;
            lemma_masquerades(next, zones, i + 1);
            assert(acc + f(i) + flat(f, i + 1, n) =~= acc + (f(i) + flat(f, i + 1, n)));
        }
    } else {
        assert(acc + flat(f, i, n) =~= acc);
    }
}

/// The text of an entry of a set.
pub open spec fn element_word(e: FirewallSetEntryView) -> Seq<char> {
    match e {
        FirewallSetEntryView::Network(n) => network_format(n),
        FirewallSetEntryView::Mac(m) => m,
        FirewallSetEntryView::Port(p) => ports_word(p),
    }
}

/// The lines that say of what type a set is.
pub open spec fn type_words(t: NftSetType) -> Seq<char> {
    match t {
        NftSetType::Ipv4Network => "        type ipv4_addr\n        flags interval\n"@,
        NftSetType::Ipv6Network => "        type ipv6_addr\n        flags interval\n"@,
        NftSetType::Mac => "        type ether_addr\n"@,
        NftSetType::Port => "        type inet_service\n        flags interval\n"@,
    }
}

/// The text of a set: its name, its type and all its entries.
pub open spec fn set_text(c: RenderContextView, s: FirewallAddressSetView) -> Seq<char> {
    if s.enabled {
        let d = set_from(c.sets, s.id, 0)->Some_0;
        "    set "@ + d.name + " {\n"@ + type_words(d.value_type) + "        elements = { "@ + all_listed(
            Seq::new(s.entries.len(), |i: int| element_word(s.entries[i])),
            ", "@,
        ) + " }\n    }\n"@
    } else {
        Seq::empty()
    }
}

proof fn lemma_sets(acc: Seq<char>, c: RenderContextView, i: int)
    requires
        0 <= i <= c.address_sets.len(),
        sets_text(acc, c, i) is Ok,
    ensures
        sets_text(acc, c, i)->Ok_0 == acc + flat(
            |k: int| set_text(c, c.address_sets[k]),
            i,
            c.address_sets.len() as int,
        ),
    decreases c.address_sets.len() - i,
{
    let f = |k: int| set_text(c, c.address_sets[k]);
    let n = c.address_sets.len() as int;
    if i < n {
        let s = c.address_sets[i];
        assert(f(i) == set_text(c, s));
        if !s.enabled {
            lemma_sets(acc, c, i + 1);
            assert(acc + flat(f, i + 1, n) =~= acc + (f(i) + flat(f, i + 1, n)));
        } else {
            let d = set_from(c.sets, s.id, 0)->Some_0;
            let e = entry_texts(s.entries);
            assert forall|x: FirewallSetEntryView| #[trigger] entry_text(x) == element_word(x) by {}
            assert(e =~= Seq::new(s.entries.len(), |i: int| element_word(s.entries[i])));
            lemma_joined(e, ", "@, 0);
            let block = set_block(d.name, d.value_type, s.entries);
            assert(f(i) == block);
            lemma_sets(acc + block, c, i + 1);
            assert(acc + f(i) + flat(f, i + 1, n) =~= acc + (f(i) + flat(f, i + 1, n)));
        }
    } else {
        assert(acc + flat(f, i, n) =~= acc);
    }
}

/// The word of a direction.
pub open spec fn hook_word(d: FirewallDirection) -> Seq<char> {
    match d {
        FirewallDirection::Input => "input"@,
        FirewallDirection::Output => "output"@,
        FirewallDirection::Forward => "forward"@,
    }
}

/// The chain of a direction: the filter rules in their order, the forwardings where it is the one for what passes
/// through, and what the zones do with the rest.
pub open spec fn chain_text(c: RenderContextView, d: FirewallDirection) -> Seq<char> {
    "    chain "@ + hook_word(d) + " {\n        type filter hook "@ + hook_word(d)
        + " priority -5; policy accept;\n"@ + flat(
        |k: int| filter_line(c, c.filter_rules[k], d),
        0,
        c.filter_rules.len() as int,
    ) + (if d == FirewallDirection::Forward {
        flat(|k: int| forwarding_lines(c, c.forwardings[k]), 0, c.forwardings.len() as int)
    } else {
        Seq::empty()
    }) + flat(|k: int| zone_text(c.zones[k], d), 0, c.zones.len() as int) + "    }\n"@
}

proof fn lemma_five(a: Seq<char>, h: Seq<char>, x: Seq<char>, y: Seq<char>, z: Seq<char>, e: Seq<char>)
    ensures
        a + h + x + y + z + e == a + (h + x + y + z + e),
        a + h + x + z + e == a + (h + x + Seq::<char>::empty() + z + e),
{
    assert(a + h + x + y + z + e =~= a + (h + x + y + z + e));
    assert(a + h + x + z + e =~= a + (h + x + Seq::<char>::empty() + z + e));
}

proof fn lemma_chain(acc: Seq<char>, c: RenderContextView, d: FirewallDirection)
    requires
        filter_chain_text(acc, c, d) is Ok,
    ensures
        filter_chain_text(acc, c, d)->Ok_0 == acc + chain_text(c, d),
{
    let h = chain_head(d);
    lemma_filter_lines(acc + h, c, d, 0);
    let t1 = filter_rules_text(acc + h, c, d, 0)->Ok_0;
    let x = flat(|k: int| filter_line(c, c.filter_rules[k], d), 0, c.filter_rules.len() as int);
    let y = flat(|k: int| forwarding_lines(c, c.forwardings[k]), 0, c.forwardings.len() as int);
    let z = flat(|k: int| zone_text(c.zones[k], d), 0, c.zones.len() as int);
    if d == FirewallDirection::Forward {
        lemma_forwardings(t1, c, 0, 0);
        let t2 = forwardings_text(t1, c, 0, 0)->Ok_0;
        lemma_policies(t2, c.zones, d, 0);
    } else {
        lemma_policies(t1, c.zones, d, 0);
    }
    lemma_five(acc, h, x, y, z, "    }\n"@);
}

/// The chains that translate addresses: the translation rules in their order, each where its kind is translated.
pub open spec fn nat_text(c: RenderContextView) -> Seq<char> {
    "    chain prerouting {\n        type nat hook prerouting priority -90; policy accept;\n"@ + flat(
        |k: int| nat_line(c, c.nat_rules[k], true),
        0,
        c.nat_rules.len() as int,
    ) + flat(|k: int| hiding_text(c.zones[k]), 0, c.zones.len() as int) + "    }\n"@
        + "    chain postrouting {\n        type nat hook postrouting priority 110; policy accept;\n"@ + flat(
        |k: int| nat_line(c, c.nat_rules[k], false),
        0,
        c.nat_rules.len() as int,
    ) + "    }\n"@
}

proof fn lemma_seven(
    a: Seq<char>,
    b: Seq<char>,
    c: Seq<char>,
    d: Seq<char>,
    e: Seq<char>,
    f: Seq<char>,
    g: Seq<char>,
)
    ensures
        a + b + c + d + e + f + g + e == a + (b + c + d + e + f + g + e),
{
    assert(a + b + c + d + e + f + g + e =~= a + (b + c + d + e + f + g + e));
}

proof fn lemma_nat(acc: Seq<char>, c: RenderContextView)
    requires
        nat_chains_text(acc, c) is Ok,
    ensures
        nat_chains_text(acc, c)->Ok_0 == acc + nat_text(c),
{
    let b = "    chain prerouting {\n        type nat hook prerouting priority -90; policy accept;\n"@;
    let f = "    chain postrouting {\n        type nat hook postrouting priority 110; policy accept;\n"@;
    let e = "    }\n"@;
    lemma_nat_lines(acc + b, c, true, 0);
    let t1 = nat_rules_text(acc + b, c, true, 0)->Ok_0;
    lemma_masquerades(t1, c.zones, 0);
    let t2 = masquerades_text(t1, c.zones, 0)->Ok_0;
    lemma_nat_lines(t2 + e + f, c, false, 0);
    let x = flat(|k: int| nat_line(c, c.nat_rules[k], true), 0, c.nat_rules.len() as int);
    let y = flat(|k: int| hiding_text(c.zones[k]), 0, c.zones.len() as int);
    let z = flat(|k: int| nat_line(c, c.nat_rules[k], false), 0, c.nat_rules.len() as int);
    lemma_seven(acc, b, x, y, e, f, z);
}

/// A ruleset is one table: its head, the enabled sets with all their entries, a chain for each direction and the
/// chains that translate addresses. Every enabled rule has one line, in the chain of its direction or kind and in
/// its order, and no other rule has one. A table that is there already is deleted first.
pub proof fn law_ruleset_is_made_of_its_rules(c: RenderContextView, state: NftablesTableState)
    requires
        ruleset_text(c, state) is Ok,
    ensures
        ruleset_text(c, state)->Ok_0 == (if state == NftablesTableState::AgentOwned {
            "delete table inet mbed_agent\n"@
        } else {
            Seq::empty()
        }) + "table inet mbed_agent {\n    comment \"mbed-agent-owned:v1\"\n"@ + flat(
            |k: int| set_text(c, c.address_sets[k]),
            0,
            c.address_sets.len() as int,
        ) + chain_text(c, FirewallDirection::Input) + chain_text(c, FirewallDirection::Output) + chain_text(
            c,
            FirewallDirection::Forward,
        ) + nat_text(c) + "}\n"@,
{
    reveal(ruleset_text);
    let h = table_head(state);
    lemma_sets(h, c, 0);
    let t0 = sets_text(h, c, 0)->Ok_0;
    lemma_chain(t0, c, FirewallDirection::Input);
    let t1 = filter_chain_text(t0, c, FirewallDirection::Input)->Ok_0;
    lemma_chain(t1, c, FirewallDirection::Output);
    let t2 = filter_chain_text(t1, c, FirewallDirection::Output)->Ok_0;
    lemma_chain(t2, c, FirewallDirection::Forward);
    let t3 = filter_chain_text(t2, c, FirewallDirection::Forward)->Ok_0;
    lemma_nat(t3, c);
}

/// Whether the sets of a context are those of its objects: one for each, of the same name, enabled alike, with a
/// native name of its own and of the type that the first entry has.
pub open spec fn are_sets(c: RenderContextView) -> bool {
    &&& c.sets.len() == c.address_sets.len()
    &&& forall|i: int|
        0 <= i < c.sets.len() ==> (#[trigger] c.sets[i]).id == c.address_sets[i].id && c.sets[i].enabled
            == c.address_sets[i].enabled && c.address_sets[i].entries.len() > 0 && (
        match c.address_sets[i].entries[0] {
            FirewallSetEntryView::Network(_) => (c.address_sets[i].family == FirewallFamily::Ipv4
                && c.sets[i].value_type == NftSetType::Ipv4Network) || (c.address_sets[i].family
                == FirewallFamily::Ipv6 && c.sets[i].value_type == NftSetType::Ipv6Network),
            FirewallSetEntryView::Mac(_) => c.sets[i].value_type == NftSetType::Mac,
            FirewallSetEntryView::Port(_) => c.sets[i].value_type == NftSetType::Port,
        })
    &&& forall|i: int, j: int|
        0 <= i < j < c.sets.len() ==> (#[trigger] c.sets[i]).name != (#[trigger] c.sets[j]).name
}

/// Whether an object is in what a ruleset is made of.
pub open spec fn has_object(c: RenderContextView, o: FirewallObjectView) -> bool {
    match o {
        FirewallObjectView::Zone(z) => c.zones.contains(z),
        FirewallObjectView::Forwarding(f) => c.forwardings.contains(f),
        FirewallObjectView::FilterRule(r) => c.filter_rules.contains(r),
        FirewallObjectView::NatRule(r) => c.nat_rules.contains(r),
        FirewallObjectView::AddressSet(s) => c.address_sets.contains(s),
    }
}

proof fn lemma_with_object(c: RenderContextView, o: FirewallObjectView, x: FirewallObjectView)
    requires
        is_ranked(c.filter_rules),
        is_ranked_nat(c.nat_rules),
        are_sets(c),
        with_object(c, o) is Ok,
    ensures
        ({
            let d = with_object(c, o)->Ok_0;
            &&& is_ranked(d.filter_rules)
            &&& is_ranked_nat(d.nat_rules)
            &&& are_sets(d)
            &&& has_object(d, x) <==> has_object(c, x) || x == o
        }),
{
    let d = with_object(c, o)->Ok_0;
    match o {
        FirewallObjectView::Zone(z) => {
            if let FirewallObjectView::Zone(y) = x {
                crate::rule_reading_laws::lemma_push_contains(c.zones, z, y);
            }
        },
        FirewallObjectView::Forwarding(z) => {
            if let FirewallObjectView::Forwarding(y) = x {
                crate::rule_reading_laws::lemma_push_contains(c.forwardings, z, y);
            }
        },
        FirewallObjectView::FilterRule(z) => {
            law_filter_rules_stand_in_order(c.filter_rules, z);
            let k = filter_slot(c.filter_rules, z, 0);
            lemma_slot(c.filter_rules, z, 0);
            if let FirewallObjectView::FilterRule(y) = x {
                lemma_insert_contains(c.filter_rules, k, z, y);
            }
        },
        FirewallObjectView::NatRule(z) => {
            law_nat_rules_stand_in_order(c.nat_rules, z);
            let k = nat_slot(c.nat_rules, z, 0);
            lemma_nat_slot(c.nat_rules, z, 0);
            if let FirewallObjectView::NatRule(y) = x {
                lemma_insert_contains(c.nat_rules, k, z, y);
            }
        },
        FirewallObjectView::AddressSet(s) => {
            if let FirewallObjectView::AddressSet(y) = x {
                crate::rule_reading_laws::lemma_push_contains(c.address_sets, s, y);
            }
            assert forall|i: int, j: int| 0 <= i < j < d.sets.len() implies (#[trigger] d.sets[i]).name != (
            #[trigger] d.sets[j]).name by {
                assert(d.sets[i] == c.sets[i]);
                if j == c.sets.len() {
                    assert(!has_name(c.sets, set_name(s.id)));
                } else {
                    assert(d.sets[j] == c.sets[j]);
                }
            }
        },
    }
}

proof fn lemma_context(c: RenderContextView, objects: Seq<FirewallObjectView>, i: int, x: FirewallObjectView)
    requires
        0 <= i <= objects.len(),
        is_ranked(c.filter_rules),
        is_ranked_nat(c.nat_rules),
        are_sets(c),
        context_from(c, objects, i) is Ok,
    ensures
        ({
            let d = context_from(c, objects, i)->Ok_0;
            &&& is_ranked(d.filter_rules)
            &&& is_ranked_nat(d.nat_rules)
            &&& are_sets(d)
            &&& has_object(d, x) <==> has_object(c, x) || exists|k: int|
                i <= k < objects.len() && #[trigger] objects[k] == x
        }),
    decreases objects.len() - i,
{
    if i < objects.len() {
        let next = with_object(c, objects[i])->Ok_0;
        lemma_with_object(c, objects[i], x);
        lemma_context(next, objects, i + 1, x);
        if exists|k: int| i <= k < objects.len() && #[trigger] objects[k] == x {
            let k = choose|k: int| i <= k < objects.len() && #[trigger] objects[k] == x;
            assert(k == i || i + 1 <= k);
        }
    }
}

/// What a ruleset is made of are exactly the given objects, with the rules in their order and one native set for each
/// set, none of which has the name of another.
pub proof fn law_ruleset_is_made_of_the_objects(objects: Seq<FirewallObjectView>, x: FirewallObjectView)
    requires
        context_of(objects) is Ok,
    ensures
        ({
            let c = context_of(objects)->Ok_0;
            &&& is_ranked(c.filter_rules)
            &&& is_ranked_nat(c.nat_rules)
            &&& are_sets(c)
            &&& has_object(c, x) <==> objects.contains(x)
        }),
{
    lemma_context(empty_context(), objects, 0, x);
    if objects.contains(x) {
        let k = choose|k: int| 0 <= k < objects.len() && objects[k] == x;
        assert(objects[k] == x);
    }
}

} // verus!
