//! What the rules of an iptables restore match and do.

use vstd::prelude::*;

use crate::firewall_iptables::{
    alternatives, branched, crossed, family_fits, fitting_protocols, flagged, flagged_bytes, flagged_networks,
    flagged_ports, flagged_protocols, icmp_flag, is_family, placed, protocol_fits, protocol_name, set_from,
    set_options, state_name, states_text, transported, with_dimension, with_sets, with_some_dimension,
    ExpandedSetView, IpFamily, RenderContextView, SetKind,
};
use crate::firewall_model::{
    FirewallConntrackState, FirewallDirection, FirewallFamily, FirewallMatchView, FirewallProtocol,
    FirewallSetEntryView, PortRange,
};
use crate::firewall_zones::interfaces_of;
use crate::net::{network_format, IpNetwork};
use crate::text::decimal;
use crate::zone_laws::{has_interface, law_zones_mean_their_interfaces};

verus! {

/// The text of the first `n` of some picks: each that is there stands behind a space.
pub open spec fn spaced(ps: Seq<Option<Seq<char>>>, n: int) -> Seq<char>
    decreases n,
{
    if n <= 0 {
        Seq::empty()
    } else {
        match ps[n - 1] {
            None => spaced(ps, n - 1),
            Some(p) => spaced(ps, n - 1) + " "@ + p,
        }
    }
}

/// Whether each of `n` picks is one that may be made in its place.
pub open spec fn is_picked(
    ps: Seq<Option<Seq<char>>>,
    q: spec_fn(int, Option<Seq<char>>) -> bool,
    n: int,
) -> bool {
    ps.len() == n && forall|k: int| 0 <= k < n ==> q(k, #[trigger] ps[k])
}

/// Whether a text is made of `n` picks.
pub open spec fn is_made(x: Seq<char>, q: spec_fn(int, Option<Seq<char>>) -> bool, n: int) -> bool {
    exists|ps: Seq<Option<Seq<char>>>| #[trigger] is_picked(ps, q, n) && x == spaced(ps, n)
}

/// Whether some texts are those that can be made of `n` picks.
pub open spec fn spans(v: Seq<Seq<char>>, q: spec_fn(int, Option<Seq<char>>) -> bool, n: int) -> bool {
    forall|x: Seq<char>| #[trigger] v.contains(x) <==> is_made(x, q, n)
}

proof fn lemma_spaced_prefix(a: Seq<Option<Seq<char>>>, b: Seq<Option<Seq<char>>>, n: int)
    requires
        0 <= n <= a.len(),
        n <= b.len(),
        forall|k: int| 0 <= k < n ==> a[k] == b[k],
    ensures
        spaced(a, n) == spaced(b, n),
    decreases n,
{
    if n > 0 {
        lemma_spaced_prefix(a, b, n - 1);
    }
}

proof fn lemma_branched(acc: Seq<Seq<char>>, base: Seq<char>, options: Seq<Seq<char>>, j: int, x: Seq<char>)
    requires
        0 <= j <= options.len(),
    ensures
        branched(acc, base, options, j).contains(x) <==> acc.contains(x) || exists|k: int|
            j <= k < options.len() && x == base + " "@ + #[trigger] options[k],
    decreases options.len() - j,
{
    if j < options.len() {
        let t = base + " "@ + options[j];
        lemma_branched(acc.push(t), base, options, j + 1, x);
        crate::rule_reading_laws::lemma_push_contains(acc, t, x);
        if exists|k: int| j <= k < options.len() && x == base + " "@ + #[trigger] options[k] {
            let k = choose|k: int| j <= k < options.len() && x == base + " "@ + #[trigger] options[k];
            assert(k == j || j + 1 <= k);
        }
    }
}

proof fn lemma_crossed(acc: Seq<Seq<char>>, bases: Seq<Seq<char>>, options: Seq<Seq<char>>, i: int, x: Seq<char>)
    requires
        0 <= i <= bases.len(),
    ensures
        crossed(acc, bases, options, i).contains(x) <==> acc.contains(x) || exists|b: int, k: int|
            i <= b < bases.len() && 0 <= k < options.len() && x == #[trigger] bases[b] + " "@
                + #[trigger] options[k],
    decreases bases.len() - i,
{
    if i < bases.len() {
        let next = branched(acc, bases[i], options, 0);
        lemma_branched(acc, bases[i], options, 0, x);
        lemma_crossed(next, bases, options, i + 1, x);
        if exists|b: int, k: int|
            i <= b < bases.len() && 0 <= k < options.len() && x == #[trigger] bases[b] + " "@
                + #[trigger] options[k] {
            let (b, k) = choose|b: int, k: int|
                i <= b < bases.len() && 0 <= k < options.len() && x == #[trigger] bases[b] + " "@
                    + #[trigger] options[k];
            if b == i {
                assert(x == bases[i] + " "@ + options[k]);
            }
        }
        if exists|k: int| 0 <= k < options.len() && x == bases[i] + " "@ + #[trigger] options[k] {
            let k = choose|k: int| 0 <= k < options.len() && x == bases[i] + " "@ + #[trigger] options[k];
            assert(x == bases[i] + " "@ + options[k]);
        }
    }
}

/// A dimension that is given adds one pick, and one that is not leaves the place empty.
proof fn lemma_dimension(
    v: Seq<Seq<char>>,
    test: bool,
    options: Seq<Seq<char>>,
    q: spec_fn(int, Option<Seq<char>>) -> bool,
    n: int,
)
    requires
        0 <= n,
        spans(v, q, n),
        with_some_dimension(Ok(v), test, options) is Ok,
        q(n, None) <==> !test,
        test ==> forall|o: Seq<char>| #[trigger] options.contains(o) <==> q(n, Some(o)),
        !test ==> forall|o: Seq<char>| !(#[trigger] q(n, Some(o))),
    ensures
        spans(with_some_dimension(Ok(v), test, options)->Ok_0, q, n + 1),
{
    let w = with_some_dimension(Ok(v), test, options)->Ok_0;
    assert forall|x: Seq<char>| #[trigger] w.contains(x) <==> is_made(x, q, n + 1) by {
        if test {
            if options.len() > 0 {
                lemma_crossed(Seq::empty(), v, options, 0, x);
            }
            if w.contains(x) {
                let (b, k) = choose|b: int, k: int|
                    0 <= b < v.len() && 0 <= k < options.len() && x == #[trigger] v[b] + " "@
                        + #[trigger] options[k];
                assert(v.contains(v[b]));
                assert(options.contains(options[k]));
                let ps = choose|ps: Seq<Option<Seq<char>>>| #[trigger]
                    is_picked(ps, q, n) && v[b] == spaced(ps, n);
                let all = ps.push(Some(options[k]));
                lemma_spaced_prefix(all, ps, n);
                assert(is_picked(all, q, n + 1));
                assert(x == spaced(all, n + 1));
            }
            if is_made(x, q, n + 1) {
                let all = choose|ps: Seq<Option<Seq<char>>>| #[trigger]
                    is_picked(ps, q, n + 1) && x == spaced(ps, n + 1);
                assert(q(n, all[n]));
                let ps = all.take(n);
                lemma_spaced_prefix(all, ps, n);
                assert(is_picked(ps, q, n));
                assert(is_made(spaced(ps, n), q, n));
                assert(v.contains(spaced(ps, n)));
                let o = all[n]->Some_0;
                assert(options.contains(o));
                let b = choose|b: int| 0 <= b < v.len() && v[b] == spaced(ps, n);
                let k = choose|k: int| 0 <= k < options.len() && options[k] == o;
                assert(x == v[b] + " "@ + options[k]);
            }
        } else {
            if w.contains(x) {
                let ps = choose|ps: Seq<Option<Seq<char>>>| #[trigger] is_picked(ps, q, n) && x == spaced(ps, n);
                let all = ps.push(None);
                lemma_spaced_prefix(all, ps, n);
                assert(is_picked(all, q, n + 1));
                assert(x == spaced(all, n + 1));
            }
            if is_made(x, q, n + 1) {
                let all = choose|ps: Seq<Option<Seq<char>>>| #[trigger]
                    is_picked(ps, q, n + 1) && x == spaced(ps, n + 1);
                assert(q(n, all[n]));
                let ps = all.take(n);
                lemma_spaced_prefix(all, ps, n);
                assert(is_picked(ps, q, n));
                assert(is_made(x, q, n));
            }
        }
    }
}

/// A flag and its value.
pub open spec fn option_text(flag: Seq<char>, value: Seq<char>) -> Seq<char> {
    flag + " "@ + value
}

/// A pick of a list of texts: one of them behind a flag, or nothing where there is none.
pub open spec fn picks_text(p: Option<Seq<char>>, flag: Seq<char>, values: Seq<Seq<char>>) -> bool {
    match p {
        None => values.len() == 0,
        Some(t) => exists|i: int| 0 <= i < values.len() && t == option_text(flag, #[trigger] values[i]),
    }
}

/// A pick of the interfaces of some zones.
pub open spec fn picks_zone(
    p: Option<Seq<char>>,
    flag: Seq<char>,
    c: RenderContextView,
    ids: Seq<Seq<char>>,
) -> bool {
    match p {
        None => forall|x: Seq<char>| !(#[trigger] has_interface(c.zones, ids, x)),
        Some(t) => exists|x: Seq<char>| #[trigger] has_interface(c.zones, ids, x) && t == option_text(flag, x),
    }
}

/// A pick of the networks that are of a family.
pub open spec fn picks_network(
    p: Option<Seq<char>>,
    flag: Seq<char>,
    networks: Seq<IpNetwork>,
    family: IpFamily,
) -> bool {
    match p {
        None => networks.len() == 0,
        Some(t) => exists|i: int|
            0 <= i < networks.len() && (match family {
                IpFamily::Ipv4 => (#[trigger] networks[i]).address is V4,
                IpFamily::Ipv6 => networks[i].address is V6,
            }) && t == option_text(flag, network_format(networks[i])),
    }
}

/// The word of a protocol.
pub open spec fn protocol_word(p: FirewallProtocol) -> Seq<char> {
    match p {
        FirewallProtocol::Tcp => "tcp"@,
        FirewallProtocol::Udp => "udp"@,
        FirewallProtocol::Icmp => "icmp"@,
        FirewallProtocol::Icmpv6 => "ipv6-icmp"@,
        FirewallProtocol::Esp => "esp"@,
        FirewallProtocol::Ah => "ah"@,
        FirewallProtocol::Gre => "gre"@,
    }
}

/// Whether a protocol exists in a family.
pub open spec fn is_protocol_of(p: FirewallProtocol, family: IpFamily) -> bool {
    match family {
        IpFamily::Ipv4 => p != FirewallProtocol::Icmpv6,
        IpFamily::Ipv6 => p != FirewallProtocol::Icmp,
    }
}

/// A pick of the protocols that exist in a family.
pub open spec fn picks_protocol(p: Option<Seq<char>>, protocols: Seq<FirewallProtocol>, family: IpFamily) -> bool {
    match p {
        None => protocols.len() == 0,
        Some(t) => exists|i: int|
            0 <= i < protocols.len() && is_protocol_of(#[trigger] protocols[i], family) && t == option_text(
                "-p"@,
                protocol_word(protocols[i]),
            ),
    }
}

/// The text of a range of ports: one number, or two with a colon between them.
pub open spec fn range_text(p: PortRange) -> Seq<char> {
    if p.start == p.end {
        decimal(p.start as nat)
    } else {
        decimal(p.start as nat) + ":"@ + decimal(p.end as nat)
    }
}

/// A pick of some ports.
pub open spec fn picks_port(p: Option<Seq<char>>, flag: Seq<char>, ports: Seq<PortRange>) -> bool {
    match p {
        None => ports.len() == 0,
        Some(t) => exists|i: int|
            0 <= i < ports.len() && t == option_text(flag, range_text(#[trigger] ports[i])),
    }
}

/// The word of a connection state.
pub open spec fn state_word(s: FirewallConntrackState) -> Seq<char> {
    match s {
        FirewallConntrackState::New => "NEW"@,
        FirewallConntrackState::Established => "ESTABLISHED"@,
        FirewallConntrackState::Related => "RELATED"@,
        FirewallConntrackState::Invalid => "INVALID"@,
    }
}

/// The words of the first `n` connection states, with commas between them.
pub open spec fn state_words(s: Seq<FirewallConntrackState>, n: int) -> Seq<char>
    decreases n,
{
    if n <= 0 {
        Seq::empty()
    } else if n == 1 {
        state_word(s[0])
    } else {
        state_words(s, n - 1) + ","@ + state_word(s[n - 1])
    }
}

/// The words of connection states, with commas between them.
pub open spec fn all_state_words(s: Seq<FirewallConntrackState>) -> Seq<char> {
    state_words(s, s.len() as int)
}

/// A pick of the connection states, which is all of them at once.
pub open spec fn picks_states(p: Option<Seq<char>>, s: Seq<FirewallConntrackState>) -> bool {
    match p {
        None => s.len() == 0,
        Some(t) => s.len() > 0 && t == option_text("-m conntrack --ctstate"@, all_state_words(s)),
    }
}

/// The decimal text of a byte.
pub open spec fn byte_text(b: u8) -> Seq<char> {
    decimal(b as nat)
}

/// A pick of some types of control messages.
pub open spec fn picks_type(p: Option<Seq<char>>, types: Seq<u8>, family: IpFamily) -> bool {
    match p {
        None => types.len() == 0,
        Some(t) => exists|i: int|
            0 <= i < types.len() && t == option_text(
                match family {
                    IpFamily::Ipv4 => "--icmp-type"@,
                    IpFamily::Ipv6 => "--icmpv6-type"@,
                },
                byte_text(#[trigger] types[i]),
            ),
    }
}

/// Whether a set is the first of its name.
pub open spec fn names_set(sets: Seq<ExpandedSetView>, id: Seq<char>, k: int) -> bool {
    &&& 0 <= k < sets.len()
    &&& sets[k].id == id
    &&& forall|j: int| 0 <= j < k ==> (#[trigger] sets[j]).id != id
}

/// The flag under which a set matches one end of a connection in a family, if it can.
pub open spec fn set_flag(kind: SetKind, family: IpFamily, source: bool) -> Option<Seq<char>> {
    match kind {
        SetKind::Ipv4Network => if family == IpFamily::Ipv4 {
            Some(if source {
                "-s"@
            } else {
                "-d"@
            })
        } else {
            None
        },
        SetKind::Ipv6Network => if family == IpFamily::Ipv6 {
            Some(if source {
                "-s"@
            } else {
                "-d"@
            })
        } else {
            None
        },
        SetKind::Mac => if source {
            Some("-m mac --mac-source"@)
        } else {
            None
        },
        SetKind::Port => Some(if source {
            "--sport"@
        } else {
            "--dport"@
        }),
    }
}

/// A pick of a set: one of its entries, under the flag of its kind.
pub open spec fn picks_set(
    p: Option<Seq<char>>,
    sets: Seq<ExpandedSetView>,
    id: Seq<char>,
    family: IpFamily,
    source: bool,
) -> bool {
    p matches Some(t) && exists|k: int, j: int|
        #![trigger names_set(sets, id, k), sets[k].entries[j]]
        names_set(sets, id, k) && sets[k].enabled && set_flag(sets[k].kind, family, source) is Some && 0 <= j
            < sets[k].entries.len() && t == option_text(
            set_flag(sets[k].kind, family, source)->Some_0,
            sets[k].entries[j],
        )
}

/// Which pick may be made in a place: the interfaces of the zones, the interfaces, the networks, the hardware
/// addresses, the protocols, the ports, the connection states, the types of control messages, and the sets.
pub open spec fn picks(
    c: RenderContextView,
    m: FirewallMatchView,
    direction: FirewallDirection,
    family: IpFamily,
    k: int,
    p: Option<Seq<char>>,
) -> bool {
    if k == 0 {
        picks_zone(p, if direction == FirewallDirection::Output {
            "-o"@
        } else {
            "-i"@
        }, c, m.source_zones)
    } else if k == 1 {
        picks_zone(p, "-o"@, c, m.destination_zones)
    } else if k == 2 {
        picks_text(p, "-i"@, m.input_interfaces)
    } else if k == 3 {
        picks_text(p, "-o"@, m.output_interfaces)
    } else if k == 4 {
        picks_network(p, "-s"@, m.source_networks, family)
    } else if k == 5 {
        picks_network(p, "-d"@, m.destination_networks, family)
    } else if k == 6 {
        picks_text(p, "-m mac --mac-source"@, m.source_macs)
    } else if k == 7 {
        picks_protocol(p, m.protocols, family)
    } else if k == 8 {
        picks_port(p, "--sport"@, m.source_ports)
    } else if k == 9 {
        picks_port(p, "--dport"@, m.destination_ports)
    } else if k == 10 {
        picks_states(p, m.conntrack_states)
    } else if k == 11 {
        picks_type(p, m.icmp_types, family)
    } else if k < 12 + m.source_sets.len() {
        picks_set(p, c.sets, m.source_sets[k - 12], family, true)
    } else {
        picks_set(p, c.sets, m.destination_sets[k - 12 - m.source_sets.len()], family, false)
    }
}

/// The picks that a rule has.
pub open spec fn choices(
    c: RenderContextView,
    m: FirewallMatchView,
    direction: FirewallDirection,
    family: IpFamily,
) -> spec_fn(int, Option<Seq<char>>) -> bool {
    |k: int, p: Option<Seq<char>>| picks(c, m, direction, family, k, p)
}

proof fn lemma_flagged(flag: Seq<char>, values: Seq<Seq<char>>, o: Seq<char>)
    ensures
        values.len() > 0 ==> (flagged(flag, values).contains(o) <==> picks_text(Some(o), flag, values)),
        values.len() == 0 ==> !picks_text(Some(o), flag, values),
{
    let f = flagged(flag, values);
    if f.contains(o) {
        let i = choose|i: int| 0 <= i < f.len() && f[i] == o;
        assert(o == option_text(flag, values[i]));
    }
    if picks_text(Some(o), flag, values) {
        let i = choose|i: int| 0 <= i < values.len() && o == option_text(flag, #[trigger] values[i]);
        assert(f[i] == o);
    }
}

proof fn lemma_zoned(c: RenderContextView, ids: Seq<Seq<char>>, flag: Seq<char>, o: Seq<char>)
    requires
        interfaces_of(c.zones, ids) is Some,
    ensures
        ({
            let v = interfaces_of(c.zones, ids)->Some_0;
            &&& v.len() > 0 ==> (flagged(flag, v).contains(o) <==> picks_zone(Some(o), flag, c, ids))
            &&& v.len() == 0 ==> !picks_zone(Some(o), flag, c, ids)
            &&& picks_zone(None, flag, c, ids) <==> v.len() == 0
        }),
{
    let v = interfaces_of(c.zones, ids)->Some_0;
    let f = flagged(flag, v);
    assert forall|x: Seq<char>| #[trigger] has_interface(c.zones, ids, x) <==> v.contains(x) by {
        law_zones_mean_their_interfaces(c.zones, ids, x);
    }
    if f.contains(o) {
        let i = choose|i: int| 0 <= i < f.len() && f[i] == o;
        assert(v.contains(v[i]));
        assert(has_interface(c.zones, ids, v[i]));
        assert(o == option_text(flag, v[i]));
    }
    if picks_zone(Some(o), flag, c, ids) {
        let x = choose|x: Seq<char>| #[trigger] has_interface(c.zones, ids, x) && o == option_text(flag, x);
        assert(v.contains(x));
        let i = choose|i: int| 0 <= i < v.len() && v[i] == x;
        assert(f[i] == o);
    }
    if v.len() > 0 {
        assert(v.contains(v[0]));
        assert(has_interface(c.zones, ids, v[0]));
    }
}

proof fn lemma_flagged_networks(
    acc: Seq<Seq<char>>,
    flag: Seq<char>,
    networks: Seq<IpNetwork>,
    family: IpFamily,
    i: int,
    o: Seq<char>,
)
    requires
        0 <= i <= networks.len(),
    ensures
        flagged_networks(acc, flag, networks, family, i).contains(o) <==> acc.contains(o) || exists|k: int|
            i <= k < networks.len() && (match family {
                IpFamily::Ipv4 => (#[trigger] networks[k]).address is V4,
                IpFamily::Ipv6 => networks[k].address is V6,
            }) && o == option_text(flag, network_format(networks[k])),
    decreases networks.len() - i,
{
    if i < networks.len() {
        let t = flag + " "@ + network_format(networks[i]);
        if is_family(networks[i].address, family) {
            lemma_flagged_networks(acc.push(t), flag, networks, family, i + 1, o);
            crate::rule_reading_laws::lemma_push_contains(acc, t, o);
        } else {
            lemma_flagged_networks(acc, flag, networks, family, i + 1, o);
        }
        if exists|k: int|
            i <= k < networks.len() && (match family {
                IpFamily::Ipv4 => (#[trigger] networks[k]).address is V4,
                IpFamily::Ipv6 => networks[k].address is V6,
            }) && o == option_text(flag, network_format(networks[k])) {
            let k = choose|k: int|
                i <= k < networks.len() && (match family {
                    IpFamily::Ipv4 => (#[trigger] networks[k]).address is V4,
                    IpFamily::Ipv6 => networks[k].address is V6,
                }) && o == option_text(flag, network_format(networks[k]));
            assert(k == i || i + 1 <= k);
        }
    }
}

proof fn lemma_fitting(acc: Seq<FirewallProtocol>, p: Seq<FirewallProtocol>, family: IpFamily, i: int, x: FirewallProtocol)
    requires
        0 <= i <= p.len(),
    ensures
        fitting_protocols(acc, p, family, i).contains(x) <==> acc.contains(x) || exists|k: int|
            i <= k < p.len() && #[trigger] p[k] == x && is_protocol_of(x, family),
    decreases p.len() - i,
{
    if i < p.len() {
        if protocol_fits(p[i], family) {
            lemma_fitting(acc.push(p[i]), p, family, i + 1, x);
            crate::rule_reading_laws::lemma_push_contains(acc, p[i], x);
        } else {
            lemma_fitting(acc, p, family, i + 1, x);
        }
        if exists|k: int| i <= k < p.len() && #[trigger] p[k] == x && is_protocol_of(x, family) {
            let k = choose|k: int| i <= k < p.len() && #[trigger] p[k] == x && is_protocol_of(x, family);
            assert(k == i || i + 1 <= k);
        }
    }
}

proof fn lemma_flagged_protocols(p: Seq<FirewallProtocol>, family: IpFamily, o: Seq<char>)
    ensures
        flagged_protocols(fitting_protocols(Seq::empty(), p, family, 0)).contains(o) <==> picks_protocol(
            Some(o),
            p,
            family,
        ),
{
    let fit = fitting_protocols(Seq::empty(), p, family, 0);
    let f = flagged_protocols(fit);
    reveal_strlit("-p ");
    reveal_strlit("-p");
    reveal_strlit(" ");
    assert("-p "@ =~= "-p"@ + " "@);
    assert forall|x: FirewallProtocol| "-p "@ + #[trigger] protocol_name(x) == option_text("-p"@, protocol_word(x)) by {}
    if f.contains(o) {
        let i = choose|i: int| 0 <= i < f.len() && f[i] == o;
        lemma_fitting(Seq::empty(), p, family, 0, fit[i]);
        assert(fit.contains(fit[i]));
        let k = choose|k: int| 0 <= k < p.len() && #[trigger] p[k] == fit[i] && is_protocol_of(fit[i], family);
        assert(o == "-p "@ + protocol_name(fit[i]));
        assert(is_protocol_of(p[k], family) && o == option_text("-p"@, protocol_word(p[k])));
    }
    if picks_protocol(Some(o), p, family) {
        let k = choose|i: int|
            0 <= i < p.len() && is_protocol_of(#[trigger] p[i], family) && o == option_text(
                "-p"@,
                protocol_word(p[i]),
            );
        lemma_fitting(Seq::empty(), p, family, 0, p[k]);
        assert(p[k] == p[k]);
        let i = choose|i: int| 0 <= i < fit.len() && fit[i] == p[k];
        assert(f[i] == "-p "@ + protocol_name(fit[i]));
        assert(f[i] == o);
    }
}

proof fn lemma_flagged_ports(flag: Seq<char>, ports: Seq<PortRange>, o: Seq<char>)
    ensures
        flagged_ports(flag, ports).contains(o) <==> picks_port(Some(o), flag, ports),
{
    let f = flagged_ports(flag, ports);
    if f.contains(o) {
        let i = choose|i: int| 0 <= i < f.len() && f[i] == o;
        assert(o == option_text(flag, range_text(ports[i])));
    }
    if picks_port(Some(o), flag, ports) {
        let i = choose|i: int| 0 <= i < ports.len() && o == option_text(flag, range_text(#[trigger] ports[i]));
        assert(f[i] == o);
    }
}

proof fn lemma_flagged_bytes(types: Seq<u8>, family: IpFamily, o: Seq<char>)
    ensures
        flagged_bytes(icmp_flag(family), types).contains(o) <==> picks_type(Some(o), types, family),
{
    let flag = icmp_flag(family);
    let f = flagged_bytes(flag, types);
    if f.contains(o) {
        let i = choose|i: int| 0 <= i < f.len() && f[i] == o;
        assert(o == option_text(flag, byte_text(types[i])));
    }
    if picks_type(Some(o), types, family) {
        let i = choose|i: int|
            0 <= i < types.len() && o == option_text(
                match family {
                    IpFamily::Ipv4 => "--icmp-type"@,
                    IpFamily::Ipv6 => "--icmpv6-type"@,
                },
                byte_text(#[trigger] types[i]),
            );
        assert(f[i] == o);
    }
}

proof fn lemma_states(s: Seq<FirewallConntrackState>, i: int)
    requires
        0 <= i <= s.len(),
    ensures
        states_text(state_words(s, i), s, i) == state_words(s, s.len() as int),
    decreases s.len() - i,
{
    if i < s.len() {
        lemma_states(s, i + 1);
        assert(state_name(s[i]) == state_word(s[i]));
        assert(Seq::<char>::empty() + state_name(s[i]) =~= state_name(s[i]));
    }
}

proof fn lemma_set(sets: Seq<ExpandedSetView>, id: Seq<char>, i: int)
    requires
        0 <= i <= sets.len(),
        forall|j: int| 0 <= j < i ==> (#[trigger] sets[j]).id != id,
    ensures
        match set_from(sets, id, i) {
            Some(s) => exists|k: int| #[trigger] names_set(sets, id, k) && sets[k] == s,
            None => forall|k: int| !(#[trigger] names_set(sets, id, k)),
        },
    decreases sets.len() - i,
{
    if i < sets.len() {
        if sets[i].id == id {
            assert(names_set(sets, id, i));
        } else {
            lemma_set(sets, id, i + 1);
        }
    }
}

proof fn lemma_set_options(sets: Seq<ExpandedSetView>, id: Seq<char>, family: IpFamily, source: bool, o: Seq<char>)
    requires
        set_from(sets, id, 0) is Some,
        set_from(sets, id, 0)->Some_0.enabled,
    ensures
        ({
            let s = set_from(sets, id, 0)->Some_0;
            match set_options(s, family, source) {
                Ok(Some(options)) => options.contains(o) <==> picks_set(Some(o), sets, id, family, source),
                Ok(None) => !picks_set(Some(o), sets, id, family, source),
                Err(_) => true,
            }
        }),
{
    lemma_set(sets, id, 0);
    let s = set_from(sets, id, 0)->Some_0;
    let k = choose|k: int| #[trigger] names_set(sets, id, k) && sets[k] == s;
    assert forall|l: int| #[trigger] names_set(sets, id, l) implies l == k by {
        if l < k {
            assert(sets[l].id != id);
        }
        if k < l {
            assert(sets[k].id != id);
        }
    }
    if let Ok(Some(options)) = set_options(s, family, source) {
        let flag = set_flag(s.kind, family, source)->Some_0;
        assert(options == flagged(flag, s.entries));
        if options.contains(o) {
            let j = choose|j: int| 0 <= j < options.len() && options[j] == o;
            assert(o == option_text(flag, sets[k].entries[j]));
        }
        if picks_set(Some(o), sets, id, family, source) {
            let (l, j) = choose|l: int, j: int|
                #![trigger names_set(sets, id, l), sets[l].entries[j]]
                names_set(sets, id, l) && sets[l].enabled && set_flag(sets[l].kind, family, source) is Some && 0
                    <= j < sets[l].entries.len() && o == option_text(
                    set_flag(sets[l].kind, family, source)->Some_0,
                    sets[l].entries[j],
                );
            assert(options[j] == o);
        }
    }
}

/// Whether no text is made of picks of which one cannot be made.
proof fn lemma_none(q: spec_fn(int, Option<Seq<char>>) -> bool, k: int, n: int)
    requires
        0 <= k < n,
        forall|p: Option<Seq<char>>| !(#[trigger] q(k, p)),
    ensures
        spans(Seq::empty(), q, n),
{
    assert forall|x: Seq<char>| !is_made(x, q, n) by {
        if is_made(x, q, n) {
            let ps = choose|ps: Seq<Option<Seq<char>>>| #[trigger] is_picked(ps, q, n) && x == spaced(ps, n);
            assert(q(k, ps[k]));
        }
    }
}

proof fn lemma_sets(
    v: Seq<Seq<char>>,
    sets: Seq<ExpandedSetView>,
    ids: Seq<Seq<char>>,
    family: IpFamily,
    source: bool,
    i: int,
    q: spec_fn(int, Option<Seq<char>>) -> bool,
    n: int,
)
    requires
        0 <= i <= ids.len(),
        i <= n,
        spans(v, q, n),
        with_sets(v, sets, ids, family, source, i) is Ok,
        forall|k: int, p: Option<Seq<char>>|
            n <= k < n + ids.len() - i ==> (#[trigger] q(k, p) <==> picks_set(
                p,
                sets,
                ids[k - n + i],
                family,
                source,
            )),
    ensures
        spans(with_sets(v, sets, ids, family, source, i)->Ok_0, q, n + ids.len() - i),
    decreases ids.len() - i,
{
    if i < ids.len() {
        let s = set_from(sets, ids[i], 0)->Some_0;
        assert forall|p: Option<Seq<char>>| #[trigger] q(n, p) <==> picks_set(p, sets, ids[i], family, source) by {
            assert(ids[n - n + i] == ids[i]);
        }
        match set_options(s, family, source) {
            Ok(Some(options)) => {
                assert(!q(n, None));
                assert forall|o: Seq<char>| #[trigger] options.contains(o) <==> q(n, Some(o)) by {
                    lemma_set_options(sets, ids[i], family, source, o);
                }
                assert(with_some_dimension(Ok(v), true, options) == with_dimension(v, options));
                lemma_dimension(v, true, options, q, n);
                let next = with_dimension(v, options)->Ok_0;
                assert forall|k: int, p: Option<Seq<char>>|
                    n + 1 <= k < n + 1 + ids.len() - (i + 1) implies (#[trigger] q(k, p) <==> picks_set(
                    p,
                    sets,
                    ids[k - (n + 1) + (i + 1)],
                    family,
                    source,
                )) by {
                    assert(ids[k - (n + 1) + (i + 1)] == ids[k - n + i]);
                }
                lemma_sets(next, sets, ids, family, source, i + 1, q, n + 1);
            },
            Ok(None) => {
                assert forall|p: Option<Seq<char>>| !(#[trigger] q(n, p)) by {
                    if let Some(o) = p {
                        lemma_set_options(sets, ids[i], family, source, o);
                    }
                }
                lemma_none(q, n, n + ids.len() - i);
            },
            Err(_) => {},
        }
    }
}

proof fn lemma_start(q: spec_fn(int, Option<Seq<char>>) -> bool)
    ensures
        spans(seq![Seq::empty()], q, 0),
{
    let v: Seq<Seq<char>> = seq![Seq::empty()];
    assert forall|x: Seq<char>| #[trigger] v.contains(x) <==> is_made(x, q, 0) by {
        if v.contains(x) {
            assert(is_picked(Seq::empty(), q, 0));
        }
        if is_made(x, q, 0) {
            assert(v[0] == x);
        }
    }
}

proof fn lemma_placed(c: RenderContextView, m: FirewallMatchView, direction: FirewallDirection, family: IpFamily)
    requires
        interfaces_of(c.zones, m.source_zones) is Some,
        interfaces_of(c.zones, m.destination_zones) is Some,
        placed(
            m,
            direction,
            interfaces_of(c.zones, m.source_zones)->Some_0,
            interfaces_of(c.zones, m.destination_zones)->Some_0,
        ) is Ok,
    ensures
        spans(
            placed(
                m,
                direction,
                interfaces_of(c.zones, m.source_zones)->Some_0,
                interfaces_of(c.zones, m.destination_zones)->Some_0,
            )->Ok_0,
            choices(c, m, direction, family),
            4,
        ),
{
    let q = choices(c, m, direction, family);
    let sources = interfaces_of(c.zones, m.source_zones)->Some_0;
    let destinations = interfaces_of(c.zones, m.destination_zones)->Some_0;
    let flag = if direction == FirewallDirection::Output {
        "-o"@
    } else {
        "-i"@
    };
    let v0: Seq<Seq<char>> = seq![Seq::empty()];
    lemma_start(q);
    assert forall|o: Seq<char>| true implies ({
        &&& sources.len() > 0 ==> (#[trigger] flagged(flag, sources).contains(o) <==> q(0, Some(o)))
        &&& sources.len() == 0 ==> !q(0, Some(o))
    }) by {
        lemma_zoned(c, m.source_zones, flag, o);
    }
    assert(q(0, None) <==> sources.len() == 0) by {
        lemma_zoned(c, m.source_zones, flag, Seq::empty());
    }
    assert forall|o: Seq<char>| sources.len() == 0 implies !(#[trigger] q(0, Some(o))) by {
        lemma_zoned(c, m.source_zones, flag, o);
    }
    lemma_dimension(v0, sources.len() > 0, flagged(flag, sources), q, 0);
    let v1 = with_some_dimension(Ok(v0), sources.len() > 0, flagged(flag, sources))->Ok_0;
    assert forall|o: Seq<char>| destinations.len() > 0 implies (#[trigger] flagged("-o"@, destinations).contains(o)
        <==> q(1, Some(o))) by {
        lemma_zoned(c, m.destination_zones, "-o"@, o);
    }
    assert forall|o: Seq<char>| destinations.len() == 0 implies !(#[trigger] q(1, Some(o))) by {
        lemma_zoned(c, m.destination_zones, "-o"@, o);
    }
    assert(q(1, None) <==> destinations.len() == 0) by {
        lemma_zoned(c, m.destination_zones, "-o"@, Seq::empty());
    }
    lemma_dimension(v1, destinations.len() > 0, flagged("-o"@, destinations), q, 1);
    let v2 = with_some_dimension(Ok(v1), destinations.len() > 0, flagged("-o"@, destinations))->Ok_0;
    lemma_text_step(v2, m.input_interfaces, "-i"@, q, 2);
    let v3 = with_some_dimension(Ok(v2), m.input_interfaces.len() > 0, flagged("-i"@, m.input_interfaces))->Ok_0;
    lemma_text_step(v3, m.output_interfaces, "-o"@, q, 3);
}

proof fn lemma_text_step(
    v: Seq<Seq<char>>,
    values: Seq<Seq<char>>,
    flag: Seq<char>,
    q: spec_fn(int, Option<Seq<char>>) -> bool,
    n: int,
)
    requires
        0 <= n,
        spans(v, q, n),
        with_some_dimension(Ok(v), values.len() > 0, flagged(flag, values)) is Ok,
        forall|p: Option<Seq<char>>| #[trigger] q(n, p) <==> picks_text(p, flag, values),
    ensures
        spans(with_some_dimension(Ok(v), values.len() > 0, flagged(flag, values))->Ok_0, q, n + 1),
{
    assert forall|o: Seq<char>| values.len() > 0 implies (#[trigger] flagged(flag, values).contains(o) <==> q(
        n,
        Some(o),
    )) by {
        lemma_flagged(flag, values, o);
    }
    assert forall|o: Seq<char>| values.len() == 0 implies !(#[trigger] q(n, Some(o))) by {
        lemma_flagged(flag, values, o);
    }
    lemma_dimension(v, values.len() > 0, flagged(flag, values), q, n);
}

proof fn lemma_network_step(
    v: Seq<Seq<char>>,
    networks: Seq<IpNetwork>,
    flag: Seq<char>,
    family: IpFamily,
    q: spec_fn(int, Option<Seq<char>>) -> bool,
    n: int,
)
    requires
        0 <= n,
        spans(v, q, n),
        with_some_dimension(
            Ok(v),
            networks.len() > 0,
            flagged_networks(Seq::empty(), flag, networks, family, 0),
        ) is Ok,
        forall|p: Option<Seq<char>>| #[trigger] q(n, p) <==> picks_network(p, flag, networks, family),
    ensures
        spans(
            with_some_dimension(
                Ok(v),
                networks.len() > 0,
                flagged_networks(Seq::empty(), flag, networks, family, 0),
            )->Ok_0,
            q,
            n + 1,
        ),
{
    let f = flagged_networks(Seq::empty(), flag, networks, family, 0);
    assert forall|o: Seq<char>| networks.len() > 0 implies (#[trigger] f.contains(o) <==> q(n, Some(o))) by {
        lemma_flagged_networks(Seq::empty(), flag, networks, family, 0, o);
    }
    lemma_dimension(v, networks.len() > 0, f, q, n);
}

proof fn lemma_transported(
    v: Seq<Seq<char>>,
    m: FirewallMatchView,
    family: IpFamily,
    q: spec_fn(int, Option<Seq<char>>) -> bool,
)
    requires
        spans(v, q, 7),
        transported(Ok(v), m, family) is Ok,
        forall|p: Option<Seq<char>>| #[trigger] q(7, p) <==> picks_protocol(p, m.protocols, family),
        forall|p: Option<Seq<char>>| #[trigger] q(8, p) <==> picks_port(p, "--sport"@, m.source_ports),
        forall|p: Option<Seq<char>>| #[trigger] q(9, p) <==> picks_port(p, "--dport"@, m.destination_ports),
        forall|p: Option<Seq<char>>| #[trigger] q(10, p) <==> picks_states(p, m.conntrack_states),
        forall|p: Option<Seq<char>>| #[trigger] q(11, p) <==> picks_type(p, m.icmp_types, family),
    ensures
        spans(transported(Ok(v), m, family)->Ok_0, q, 12),
{
    let fit = fitting_protocols(Seq::empty(), m.protocols, family, 0);
    let f7 = flagged_protocols(fit);
    assert forall|o: Seq<char>| #[trigger] f7.contains(o) <==> q(7, Some(o)) by {
        lemma_flagged_protocols(m.protocols, family, o);
    }
    lemma_dimension(v, m.protocols.len() > 0, f7, q, 7);
    let v8 = with_some_dimension(Ok(v), m.protocols.len() > 0, f7)->Ok_0;
    let f8 = flagged_ports("--sport"@, m.source_ports);
    assert forall|o: Seq<char>| #[trigger] f8.contains(o) <==> q(8, Some(o)) by {
        lemma_flagged_ports("--sport"@, m.source_ports, o);
    }
    lemma_dimension(v8, m.source_ports.len() > 0, f8, q, 8);
    let v9 = with_some_dimension(Ok(v8), m.source_ports.len() > 0, f8)->Ok_0;
    let f9 = flagged_ports("--dport"@, m.destination_ports);
    assert forall|o: Seq<char>| #[trigger] f9.contains(o) <==> q(9, Some(o)) by {
        lemma_flagged_ports("--dport"@, m.destination_ports, o);
    }
    lemma_dimension(v9, m.destination_ports.len() > 0, f9, q, 9);
    let v10 = with_some_dimension(Ok(v9), m.destination_ports.len() > 0, f9)->Ok_0;
    let t = "-m conntrack --ctstate "@ + states_text(Seq::empty(), m.conntrack_states, 0);
    let f10 = seq![t];
    assert(m.conntrack_states.len() > 0 ==> q(10, Some(t))) by {
        lemma_states(m.conntrack_states, 0);
        reveal_strlit("-m conntrack --ctstate ");
        reveal_strlit("-m conntrack --ctstate");
        reveal_strlit(" ");
        assert("-m conntrack --ctstate "@ =~= "-m conntrack --ctstate"@ + " "@);
        assert(t == option_text("-m conntrack --ctstate"@, all_state_words(m.conntrack_states)));
    }
    assert forall|o: Seq<char>| m.conntrack_states.len() > 0 implies (#[trigger] f10.contains(o) <==> q(
        10,
        Some(o),
    )) by {
        assert(f10[0] == t);
        assert(q(10, Some(o)) ==> o == t);
    }
    lemma_dimension(v10, m.conntrack_states.len() > 0, f10, q, 10);
    let v11 = with_some_dimension(Ok(v10), m.conntrack_states.len() > 0, f10)->Ok_0;
    let f11 = flagged_bytes(icmp_flag(family), m.icmp_types);
    assert forall|o: Seq<char>| #[trigger] f11.contains(o) <==> q(11, Some(o)) by {
        lemma_flagged_bytes(m.icmp_types, family, o);
    }
    lemma_dimension(v11, m.icmp_types.len() > 0, f11, q, 11);
}

/// A rule becomes one line for each choice of one value of each property that it has: an interface, a network of
/// the family, a hardware address, a protocol, ports, the connection states, a type of control message and an
/// entry of each set. A rule of the other family becomes none.
pub proof fn law_rule_matches_each_choice(
    c: RenderContextView,
    m: FirewallMatchView,
    direction: FirewallDirection,
    family: IpFamily,
    x: Seq<char>,
)
    requires
        alternatives(c, m, direction, family) is Ok,
    ensures
        ({
            let v = alternatives(c, m, direction, family)->Ok_0;
            if (m.family == FirewallFamily::Ipv4 && family == IpFamily::Ipv6) || (m.family
                == FirewallFamily::Ipv6 && family == IpFamily::Ipv4) {
                v.len() == 0
            } else {
                v.contains(x) <==> is_made(
                    x,
                    choices(c, m, direction, family),
                    12int + m.source_sets.len() + m.destination_sets.len(),
                )
            }
        }),
{
    if family_fits(m.family, family) {
        let q = choices(c, m, direction, family);
        let sources = interfaces_of(c.zones, m.source_zones)->Some_0;
        let destinations = interfaces_of(c.zones, m.destination_zones)->Some_0;
        lemma_placed(c, m, direction, family);
        let v4 = placed(m, direction, sources, destinations)->Ok_0;
        lemma_network_step(v4, m.source_networks, "-s"@, family, q, 4);
        let v5 = with_some_dimension(
            Ok(v4),
            m.source_networks.len() > 0,
            flagged_networks(Seq::empty(), "-s"@, m.source_networks, family, 0),
        )->Ok_0;
        lemma_network_step(v5, m.destination_networks, "-d"@, family, q, 5);
        let v6 = with_some_dimension(
            Ok(v5),
            m.destination_networks.len() > 0,
            flagged_networks(Seq::empty(), "-d"@, m.destination_networks, family, 0),
        )->Ok_0;
        lemma_text_step(v6, m.source_macs, "-m mac --mac-source"@, q, 6);
        let v7 = with_some_dimension(
            Ok(v6),
            m.source_macs.len() > 0,
            flagged("-m mac --mac-source"@, m.source_macs),
        )->Ok_0;
        lemma_transported(v7, m, family, q);
        let v12 = transported(Ok(v7), m, family)->Ok_0;
        lemma_sets(v12, c.sets, m.source_sets, family, true, 0, q, 12);
        let w = with_sets(v12, c.sets, m.source_sets, family, true, 0)->Ok_0;
        let n: int = 12int + m.source_sets.len();
        assert forall|k: int, p: Option<Seq<char>>| n <= k < n + m.destination_sets.len() - 0 implies (#[trigger] q(
            k,
            p,
        ) <==> picks_set(p, c.sets, m.destination_sets[k - n + 0], family, false)) by {
            assert(k - 12 - m.source_sets.len() == k - n + 0);
        }
        lemma_sets(w, c.sets, m.destination_sets, family, false, 0, q, n);
    }
}

/// The text of an entry of a set.
pub open spec fn entry_word(e: FirewallSetEntryView) -> Seq<char> {
    match e {
        FirewallSetEntryView::Network(n) => network_format(n),
        FirewallSetEntryView::Mac(m) => m,
        FirewallSetEntryView::Port(p) => range_text(p),
    }
}

/// Whether an entry of a set of a family is of a kind.
pub open spec fn is_entry_of(e: FirewallSetEntryView, family: FirewallFamily, kind: SetKind) -> bool {
    match e {
        FirewallSetEntryView::Network(_) => (kind == SetKind::Ipv4Network && family == FirewallFamily::Ipv4) || (kind
            == SetKind::Ipv6Network && family == FirewallFamily::Ipv6),
        FirewallSetEntryView::Mac(_) => kind == SetKind::Mac,
        FirewallSetEntryView::Port(_) => kind == SetKind::Port,
    }
}

} // verus!
