//! What an iptables restore is made of: a line for each choice of each rule, under its chain and with its verdict.

use vstd::prelude::*;

use crate::firewall_iptables::{
    all_filtered, all_matched, all_translated, all_zone_lines, alternatives, context_of, empty_context,
    entry_text, family_restore, filter_table, filtered, forward_line, forwarded, forwarded_from, forwarded_to,
    headed, is_prerouting, log_line, mangle_table, masquerade_line, matched, mtu_line, nat_chain, nat_table,
    opened, owned_chains, policies, policy, policy_line, rule_line, set_expanded, set_kind, translated,
    translation, with_object, zone_lines, zone_policies, DraftView, IpFamily, IptablesFamilyState,
    IptablesRenderErrorView, RenderContextView, SetKind,
};
use crate::firewall_model::{
    FirewallAddressSetView, FirewallDirection, FirewallFilterRuleView, FirewallForwardingView,
    FirewallLogLevel, FirewallNatKind, FirewallNatRuleView, FirewallObjectView, FirewallRateLimit,
    FirewallRejectKind, FirewallSetEntryView, FirewallVerdict, FirewallZoneView, PortRange,
};
use crate::firewall_zones::{filter_slot, nat_slot, zone_from};
use crate::iptables_rule_laws::{entry_word, is_entry_of, range_text};
use crate::net::{address_format, IpAddr};
use crate::text::decimal;
use crate::zone_laws::{
    is_ranked, is_ranked_nat, law_filter_rules_stand_in_order, law_nat_rules_stand_in_order,
};

verus! {

/// The texts of a function from `i` to `n`, one behind the other.
pub open spec fn flat(f: spec_fn(int) -> Seq<char>, i: int, n: int) -> Seq<char>
    decreases n - i,
{
    if i >= n {
        Seq::empty()
    } else {
        f(i) + flat(f, i + 1, n)
    }
}

/// The words of a verdict.
pub open spec fn verdict_words(verdict: FirewallVerdict, reject: Option<FirewallRejectKind>) -> Seq<char> {
    match verdict {
        FirewallVerdict::Accept => "-j ACCEPT"@,
        FirewallVerdict::Drop => "-j DROP"@,
        FirewallVerdict::Reject => match reject {
            None => "-j REJECT"@,
            Some(FirewallRejectKind::TcpReset) => "-j REJECT --reject-with tcp-reset"@,
            Some(FirewallRejectKind::IcmpPortUnreachable) => "-j REJECT --reject-with icmp-port-unreachable"@,
            Some(FirewallRejectKind::IcmpHostUnreachable) => "-j REJECT --reject-with icmp-host-unreachable"@,
            Some(FirewallRejectKind::Icmp6PortUnreachable) => "-j REJECT --reject-with icmp6-port-unreachable"@,
        },
    }
}

/// The chain of a direction.
pub open spec fn direction_chain(direction: FirewallDirection) -> Seq<char> {
    match direction {
        FirewallDirection::Input => "MBED_INPUT"@,
        FirewallDirection::Output => "MBED_OUTPUT"@,
        FirewallDirection::Forward => "MBED_FORWARD"@,
    }
}

/// The word of a level of logging.
pub open spec fn level_word(l: FirewallLogLevel) -> Seq<char> {
    match l {
        FirewallLogLevel::Emergency => "emerg"@,
        FirewallLogLevel::Alert => "alert"@,
        FirewallLogLevel::Critical => "crit"@,
        FirewallLogLevel::Error => "error"@,
        FirewallLogLevel::Warning => "warning"@,
        FirewallLogLevel::Notice => "notice"@,
        FirewallLogLevel::Info => "info"@,
        FirewallLogLevel::Debug => "debug"@,
    }
}

/// The words of a limit: as many packets each second and as many at once.
pub open spec fn limit_words(l: Option<FirewallRateLimit>) -> Seq<char> {
    match l {
        None => Seq::empty(),
        Some(l) => " -m limit --limit "@ + decimal(l.packets_per_second as nat) + "/second --limit-burst "@
            + decimal(l.burst as nat),
    }
}

/// The lines of a filter rule for one choice: one that logs, where the rule does, and one with its verdict.
pub open spec fn rule_block(r: FirewallFilterRuleView, matcher: Seq<char>) -> Seq<char> {
    (match r.log {
        None => Seq::empty(),
        Some(l) => "-A "@ + direction_chain(r.direction) + matcher
            + " -m limit --limit 1/second --limit-burst 5 -m comment --comment mbed:"@ + r.id
            + " -j LOG --log-prefix \""@ + l.prefix + "\" --log-level "@ + level_word(l.level) + "\n"@,
    }) + ("-A "@ + direction_chain(r.direction) + matcher + limit_words(r.rate_limit)
        + " -m comment --comment mbed:"@ + r.id + " "@ + verdict_words(r.verdict, r.reject_with) + "\n"@)
}

/// Whether a filter rule has lines in a family: it is enabled and its way to reject exists there.
pub open spec fn is_shown(r: FirewallFilterRuleView, family: IpFamily) -> bool {
    r.enabled && match family {
        IpFamily::Ipv4 => r.reject_with != Some(FirewallRejectKind::Icmp6PortUnreachable),
        IpFamily::Ipv6 => r.reject_with != Some(FirewallRejectKind::IcmpPortUnreachable) && r.reject_with != Some(
            FirewallRejectKind::IcmpHostUnreachable,
        ),
    }
}

/// The lines of a filter rule.
pub open spec fn filter_text(c: RenderContextView, r: FirewallFilterRuleView, family: IpFamily) -> Seq<char> {
    if is_shown(r, family) {
        let v = alternatives(c, r.matches, r.direction, family)->Ok_0;
        flat(|k: int| rule_block(r, v[k]), 0, v.len() as int)
    } else {
        Seq::empty()
    }
}

proof fn lemma_matched(d: DraftView, r: FirewallFilterRuleView, matcher: Seq<char>, family: IpFamily)
    requires
        matched(d, r, matcher, family) is Ok,
    ensures
        matched(d, r, matcher, family)->Ok_0.text == d.text + rule_block(r, matcher),
        r.verdict != FirewallVerdict::Reject ==> r.reject_with is None,
{
    let e = matched(d, r, matcher, family)->Ok_0;
    let last = rule_line(
        direction_chain(r.direction),
        matcher,
        limit_words(r.rate_limit),
        r.id,
        verdict_words(r.verdict, r.reject_with),
    );
    match r.log {
        None => {
            assert(e.text == d.text + last);
            assert(rule_block(r, matcher) =~= last);
        },
        Some(l) => {
            let first = log_line(direction_chain(r.direction), matcher, r.id, l.prefix, l.level);
            assert(e.text == d.text + first + last);
            assert(rule_block(r, matcher) == first + last);
            assert(d.text + first + last =~= d.text + (first + last));
        },
    }
}

proof fn lemma_all_matched(
    d: DraftView,
    r: FirewallFilterRuleView,
    v: Seq<Seq<char>>,
    family: IpFamily,
    i: int,
)
    requires
        0 <= i <= v.len(),
        all_matched(d, r, v, family, i) is Ok,
    ensures
        all_matched(d, r, v, family, i)->Ok_0.text == d.text + flat(
            |k: int| rule_block(r, v[k]),
            i,
            v.len() as int,
        ),
    decreases v.len() - i,
{
    let f = |k: int| rule_block(r, v[k]);
    if i < v.len() {
        let next = matched(d, r, v[i], family)->Ok_0;
        lemma_matched(d, r, v[i], family);
        lemma_all_matched(next, r, v, family, i + 1);
        assert(f(i) == rule_block(r, v[i]));
        let rest = flat(f, i + 1, v.len() as int);
        assert(d.text + f(i) + rest =~= d.text + (f(i) + rest));
    } else {
        assert(d.text + flat(f, i, v.len() as int) =~= d.text);
    }
}

proof fn lemma_filtered(d: DraftView, c: RenderContextView, r: FirewallFilterRuleView, family: IpFamily)
    requires
        filtered(d, c, r, family) is Ok,
    ensures
        filtered(d, c, r, family)->Ok_0.text == d.text + filter_text(c, r, family),
{
    if is_shown(r, family) {
        let v = alternatives(c, r.matches, r.direction, family)->Ok_0;
        lemma_all_matched(d, r, v, family, 0);
    } else {
        assert(d.text + filter_text(c, r, family) =~= d.text);
    }
}

proof fn lemma_all_filtered(d: DraftView, c: RenderContextView, family: IpFamily, i: int)
    requires
        0 <= i <= c.filter_rules.len(),
        all_filtered(d, c, family, i) is Ok,
    ensures
        all_filtered(d, c, family, i)->Ok_0.text == d.text + flat(
            |k: int| filter_text(c, c.filter_rules[k], family),
            i,
            c.filter_rules.len() as int,
        ),
    decreases c.filter_rules.len() - i,
{
    let f = |k: int| filter_text(c, c.filter_rules[k], family);
    let n = c.filter_rules.len() as int;
    if i < n {
        let next = filtered(d, c, c.filter_rules[i], family)->Ok_0;
        lemma_filtered(d, c, c.filter_rules[i], family);
        lemma_all_filtered(next, c, family, i + 1);
        assert(f(i) == filter_text(c, c.filter_rules[i], family));
        assert(d.text + f(i) + flat(f, i + 1, n) =~= d.text + (f(i) + flat(f, i + 1, n)));
    } else {
        assert(d.text + flat(f, i, n) =~= d.text);
    }
}

/// The line that lets connections pass from one interface to another.
pub open spec fn pass_line(input: Seq<char>, output: Seq<char>, id: Seq<char>) -> Seq<char> {
    "-A MBED_FORWARD -i "@ + input + " -o "@ + output + " -m comment --comment mbed:"@ + id + " -j ACCEPT\n"@
}

/// The lines of a forwarding: from each interface of its source to each of its destination.
pub open spec fn forwarding_text(c: RenderContextView, f: FirewallForwardingView) -> Seq<char> {
    if f.enabled {
        let s = zone_from(c.zones, f.source_zone, 0)->Some_0.networks;
        let t = zone_from(c.zones, f.destination_zone, 0)->Some_0.networks;
        flat(|i: int| pass_lines(s[i], t, f.id), 0, s.len() as int)
    } else {
        Seq::empty()
    }
}

/// The lines that let connections pass from one interface to some others.
pub open spec fn pass_lines(input: Seq<char>, outputs: Seq<Seq<char>>, id: Seq<char>) -> Seq<char> {
    flat(|j: int| pass_line(input, outputs[j], id), 0, outputs.len() as int)
}

proof fn lemma_forwarded_to(d: DraftView, input: Seq<char>, outputs: Seq<Seq<char>>, id: Seq<char>, j: int)
    requires
        0 <= j <= outputs.len(),
        forwarded_to(d, input, outputs, id, j) is Ok,
    ensures
        forwarded_to(d, input, outputs, id, j)->Ok_0.text == d.text + flat(
            |k: int| pass_line(input, outputs[k], id),
            j,
            outputs.len() as int,
        ),
    decreases outputs.len() - j,
{
    let f = |k: int| pass_line(input, outputs[k], id);
    let n = outputs.len() as int;
    if j < n {
        let line = forward_line(input, outputs[j], id);
        let room = crate::firewall_iptables::counted(d)->Ok_0;
        let next = crate::firewall_iptables::written(room, line);
        lemma_forwarded_to(next, input, outputs, id, j + 1);
        assert(f(j) == line);
        assert(d.text + f(j) + flat(f, j + 1, n) =~= d.text + (f(j) + flat(f, j + 1, n)));
    } else {
        assert(d.text + flat(f, j, n) =~= d.text);
    }
}

proof fn lemma_forwarded_from(d: DraftView, inputs: Seq<Seq<char>>, outputs: Seq<Seq<char>>, id: Seq<char>, i: int)
    requires
        0 <= i <= inputs.len(),
        forwarded_from(d, inputs, outputs, id, i) is Ok,
    ensures
        forwarded_from(d, inputs, outputs, id, i)->Ok_0.text == d.text + flat(
            |k: int| pass_lines(inputs[k], outputs, id),
            i,
            inputs.len() as int,
        ),
    decreases inputs.len() - i,
{
    let f = |k: int| pass_lines(inputs[k], outputs, id);
    let n = inputs.len() as int;
    if i < n {
        let next = forwarded_to(d, inputs[i], outputs, id, 0)->Ok_0;
        lemma_forwarded_to(d, inputs[i], outputs, id, 0);
        lemma_forwarded_from(next, inputs, outputs, id, i + 1);
        assert(f(i) == pass_lines(inputs[i], outputs, id));
        assert(d.text + f(i) + flat(f, i + 1, n) =~= d.text + (f(i) + flat(f, i + 1, n)));
    } else {
        assert(d.text + flat(f, i, n) =~= d.text);
    }
}

proof fn lemma_forwarded(d: DraftView, c: RenderContextView, i: int)
    requires
        0 <= i <= c.forwardings.len(),
        forwarded(d, c, i) is Ok,
    ensures
        forwarded(d, c, i)->Ok_0.text == d.text + flat(
            |k: int| forwarding_text(c, c.forwardings[k]),
            i,
            c.forwardings.len() as int,
        ),
    decreases c.forwardings.len() - i,
{
    let f = |k: int| forwarding_text(c, c.forwardings[k]);
    let n = c.forwardings.len() as int;
    if i < n {
        assert(f(i) == forwarding_text(c, c.forwardings[i]));
        if !c.forwardings[i].enabled {
            lemma_forwarded(d, c, i + 1);
            assert(d.text + flat(f, i + 1, n) =~= d.text + (f(i) + flat(f, i + 1, n)));
        } else {
            let s = zone_from(c.zones, c.forwardings[i].source_zone, 0)->Some_0.networks;
            let t = zone_from(c.zones, c.forwardings[i].destination_zone, 0)->Some_0.networks;
            let next = forwarded_from(d, s, t, c.forwardings[i].id, 0)->Ok_0;
            lemma_forwarded_from(d, s, t, c.forwardings[i].id, 0);
            lemma_forwarded(next, c, i + 1);
            assert(d.text + f(i) + flat(f, i + 1, n) =~= d.text + (f(i) + flat(f, i + 1, n)));
        }
    } else {
        assert(d.text + flat(f, i, n) =~= d.text);
    }
}

/// The line that gives an interface of a zone its verdict in a chain.
pub open spec fn default_line(
    chain: Seq<char>,
    flag: Seq<char>,
    interface: Seq<char>,
    id: Seq<char>,
    verdict: FirewallVerdict,
) -> Seq<char> {
    "-A "@ + chain + " "@ + flag + " "@ + interface + " -m comment --comment mbed:zone:"@ + id + " "@
        + verdict_words(verdict, None) + "\n"@
}

/// The lines of an interface of a zone.
pub open spec fn default_lines(z: FirewallZoneView, i: int) -> Seq<char> {
    default_line("MBED_INPUT"@, "-i"@, z.networks[i], z.id, z.input) + default_line(
        "MBED_OUTPUT"@,
        "-o"@,
        z.networks[i],
        z.id,
        z.output,
    ) + default_line("MBED_FORWARD"@, "-i"@, z.networks[i], z.id, z.forward)
}

/// The lines of a zone: what it does with what comes in, goes out and passes through.
pub open spec fn zone_text(z: FirewallZoneView) -> Seq<char> {
    if z.enabled {
        flat(
            |i: int| default_lines(z, i),
            0,
            z.networks.len() as int,
        )
    } else {
        Seq::empty()
    }
}

spec fn policies_of(d: DraftView, z: FirewallZoneView, i: int) -> Result<DraftView, IptablesRenderErrorView> {
    policy(
        policy(
            policy(Ok(d), policy_line("MBED_INPUT"@, "-i"@, z.networks[i], z.id, z.input)),
            policy_line("MBED_OUTPUT"@, "-o"@, z.networks[i], z.id, z.output),
        ),
        policy_line("MBED_FORWARD"@, "-i"@, z.networks[i], z.id, z.forward),
    )
}

proof fn lemma_policies_of(d: DraftView, z: FirewallZoneView, i: int)
    requires
        policies_of(d, z, i) is Ok,
    ensures
        policies_of(d, z, i)->Ok_0.text == d.text + default_lines(z, i),
{
    let a = policy_line("MBED_INPUT"@, "-i"@, z.networks[i], z.id, z.input);
    let b = policy_line("MBED_OUTPUT"@, "-o"@, z.networks[i], z.id, z.output);
    let e = policy_line("MBED_FORWARD"@, "-i"@, z.networks[i], z.id, z.forward);
    assert(a == default_line("MBED_INPUT"@, "-i"@, z.networks[i], z.id, z.input));
    assert(b == default_line("MBED_OUTPUT"@, "-o"@, z.networks[i], z.id, z.output));
    assert(e == default_line("MBED_FORWARD"@, "-i"@, z.networks[i], z.id, z.forward));
    lemma_three(d.text, a, b, e);
}

proof fn lemma_three(d: Seq<char>, a: Seq<char>, b: Seq<char>, e: Seq<char>)
    ensures
        d + a + b + e == d + (a + b + e),
{
    assert(d + a + b + e =~= d + (a + b + e));
}

proof fn lemma_zone_policies(d: DraftView, z: FirewallZoneView, i: int)
    requires
        0 <= i <= z.networks.len(),
        zone_policies(d, z, i) is Ok,
    ensures
        zone_policies(d, z, i)->Ok_0.text == d.text + flat(
            |i: int| default_lines(z, i),
            i,
            z.networks.len() as int,
        ),
    decreases z.networks.len() - i,
{
    let f = |i: int| default_lines(z, i);
    let n = z.networks.len() as int;
    if i < n {
        let next = policies_of(d, z, i)->Ok_0;
        lemma_policies_of(d, z, i);
        lemma_zone_policies(next, z, i + 1);
        assert(f(i) == default_lines(z, i));
        assert(d.text + f(i) + flat(f, i + 1, n) =~= d.text + (f(i) + flat(f, i + 1, n)));
    } else {
        assert(d.text + flat(f, i, n) =~= d.text);
    }
}

proof fn lemma_policies(d: DraftView, zones: Seq<FirewallZoneView>, i: int)
    requires
        0 <= i <= zones.len(),
        policies(d, zones, i) is Ok,
    ensures
        policies(d, zones, i)->Ok_0.text == d.text + flat(|k: int| zone_text(zones[k]), i, zones.len() as int),
    decreases zones.len() - i,
{
    let f = |k: int| zone_text(zones[k]);
    let n = zones.len() as int;
    if i < n {
        assert(f(i) == zone_text(zones[i]));
        if !zones[i].enabled {
            lemma_policies(d, zones, i + 1);
            assert(d.text + flat(f, i + 1, n) =~= d.text + (f(i) + flat(f, i + 1, n)));
        } else {
            let next = zone_policies(d, zones[i], 0)->Ok_0;
            lemma_zone_policies(d, zones[i], 0);
            lemma_policies(next, zones, i + 1);
            assert(d.text + f(i) + flat(f, i + 1, n) =~= d.text + (f(i) + flat(f, i + 1, n)));
        }
    } else {
        assert(d.text + flat(f, i, n) =~= d.text);
    }
}

/// The lines of a zone that fits segments to the path, for each of its interfaces.
pub open spec fn clamp_text(z: FirewallZoneView) -> Seq<char> {
    if z.enabled && z.mtu_fix {
        flat(
            |i: int|
                "-A MBED_MANGLE_FORWARD -o "@ + z.networks[i]
                    + " -p tcp --tcp-flags SYN,RST SYN -m comment --comment mbed:mtu:"@ + z.id
                    + " -j TCPMSS --clamp-mss-to-pmtu\n"@,
            0,
            z.networks.len() as int,
        )
    } else {
        Seq::empty()
    }
}

/// The lines of a zone that hides what is behind it, for each of its interfaces.
pub open spec fn hide_text(z: FirewallZoneView) -> Seq<char> {
    if z.enabled && z.masquerade {
        flat(
            |i: int|
                "-A MBED_POSTROUTING -o "@ + z.networks[i] + " -m comment --comment mbed:masq:"@ + z.id
                    + " -j MASQUERADE\n"@,
            0,
            z.networks.len() as int,
        )
    } else {
        Seq::empty()
    }
}

proof fn lemma_clamp_lines(d: DraftView, z: FirewallZoneView, i: int)
    requires
        0 <= i <= z.networks.len(),
        zone_lines(d, z, true, i) is Ok,
    ensures
        zone_lines(d, z, true, i)->Ok_0.text == d.text + flat(
            |i: int|
                "-A MBED_MANGLE_FORWARD -o "@ + z.networks[i]
                    + " -p tcp --tcp-flags SYN,RST SYN -m comment --comment mbed:mtu:"@ + z.id
                    + " -j TCPMSS --clamp-mss-to-pmtu\n"@,
            i,
            z.networks.len() as int,
        ),
    decreases z.networks.len() - i,
{
    let f = |i: int|
        "-A MBED_MANGLE_FORWARD -o "@ + z.networks[i]
            + " -p tcp --tcp-flags SYN,RST SYN -m comment --comment mbed:mtu:"@ + z.id
            + " -j TCPMSS --clamp-mss-to-pmtu\n"@;
    let n = z.networks.len() as int;
    if i < n {
        let line = mtu_line(z.networks[i], z.id);
        let room = crate::firewall_iptables::counted(d)->Ok_0;
        lemma_clamp_lines(crate::firewall_iptables::written(room, line), z, i + 1);
        assert(f(i) == line);
        assert(d.text + f(i) + flat(f, i + 1, n) =~= d.text + (f(i) + flat(f, i + 1, n)));
    } else {
        assert(d.text + flat(f, i, n) =~= d.text);
    }
}

proof fn lemma_hide_lines(d: DraftView, z: FirewallZoneView, i: int)
    requires
        0 <= i <= z.networks.len(),
        zone_lines(d, z, false, i) is Ok,
    ensures
        zone_lines(d, z, false, i)->Ok_0.text == d.text + flat(
            |i: int|
                "-A MBED_POSTROUTING -o "@ + z.networks[i] + " -m comment --comment mbed:masq:"@ + z.id
                    + " -j MASQUERADE\n"@,
            i,
            z.networks.len() as int,
        ),
    decreases z.networks.len() - i,
{
    let f = |i: int|
        "-A MBED_POSTROUTING -o "@ + z.networks[i] + " -m comment --comment mbed:masq:"@ + z.id
            + " -j MASQUERADE\n"@;
    let n = z.networks.len() as int;
    if i < n {
        let line = masquerade_line(z.networks[i], z.id);
        let room = crate::firewall_iptables::counted(d)->Ok_0;
        lemma_hide_lines(crate::firewall_iptables::written(room, line), z, i + 1);
        assert(f(i) == line);
        assert(d.text + f(i) + flat(f, i + 1, n) =~= d.text + (f(i) + flat(f, i + 1, n)));
    } else {
        assert(d.text + flat(f, i, n) =~= d.text);
    }
}

proof fn lemma_clamped(d: DraftView, zones: Seq<FirewallZoneView>, i: int)
    requires
        0 <= i <= zones.len(),
        all_zone_lines(d, zones, true, i) is Ok,
    ensures
        all_zone_lines(d, zones, true, i)->Ok_0.text == d.text + flat(
            |k: int| clamp_text(zones[k]),
            i,
            zones.len() as int,
        ),
    decreases zones.len() - i,
{
    let f = |k: int| clamp_text(zones[k]);
    let n = zones.len() as int;
    if i < n {
        assert(f(i) == clamp_text(zones[i]));
        if !(zones[i].enabled && zones[i].mtu_fix) {
            lemma_clamped(d, zones, i + 1);
            assert(d.text + flat(f, i + 1, n) =~= d.text + (f(i) + flat(f, i + 1, n)));
        } else {
            let next = zone_lines(d, zones[i], true, 0)->Ok_0;
            lemma_clamp_lines(d, zones[i], 0);
            lemma_clamped(next, zones, i + 1);
            assert(d.text + f(i) + flat(f, i + 1, n) =~= d.text + (f(i) + flat(f, i + 1, n)));
        }
    } else {
        assert(d.text + flat(f, i, n) =~= d.text);
    }
}

proof fn lemma_hidden(d: DraftView, zones: Seq<FirewallZoneView>, i: int)
    requires
        0 <= i <= zones.len(),
        all_zone_lines(d, zones, false, i) is Ok,
    ensures
        all_zone_lines(d, zones, false, i)->Ok_0.text == d.text + flat(
            |k: int| hide_text(zones[k]),
            i,
            zones.len() as int,
        ),
    decreases zones.len() - i,
{
    let f = |k: int| hide_text(zones[k]);
    let n = zones.len() as int;
    if i < n {
        assert(f(i) == hide_text(zones[i]));
        if !(zones[i].enabled && zones[i].masquerade) {
            lemma_hidden(d, zones, i + 1);
            assert(d.text + flat(f, i + 1, n) =~= d.text + (f(i) + flat(f, i + 1, n)));
        } else {
            let next = zone_lines(d, zones[i], false, 0)->Ok_0;
            lemma_hide_lines(d, zones[i], 0);
            lemma_hidden(next, zones, i + 1);
            assert(d.text + f(i) + flat(f, i + 1, n) =~= d.text + (f(i) + flat(f, i + 1, n)));
        }
    } else {
        assert(d.text + flat(f, i, n) =~= d.text);
    }
}

/// The address, with the ports where there are any, that a connection is translated to.
pub open spec fn target_text(a: IpAddr, p: Option<PortRange>) -> Seq<char> {
    match (a, p) {
        (_, None) => address_format(a),
        (IpAddr::V4(_), Some(p)) => address_format(a) + ":"@ + range_text(p),
        (IpAddr::V6(_), Some(p)) => "["@ + address_format(a) + "]:"@ + range_text(p),
    }
}

/// The words of a translation.
pub open spec fn translation_words(r: FirewallNatRuleView) -> Seq<char> {
    match r.kind {
        FirewallNatKind::Masquerade => "-j MASQUERADE"@,
        FirewallNatKind::Redirect => "-j REDIRECT --to-ports "@ + range_text(r.translation_port->Some_0),
        FirewallNatKind::DestinationNat => "-j DNAT --to-destination "@ + target_text(
            r.translation_address->Some_0,
            r.translation_port,
        ),
        FirewallNatKind::SourceNat => "-j SNAT --to-source "@ + target_text(
            r.translation_address->Some_0,
            r.translation_port,
        ),
    }
}

/// The chain in which a translation is made: before the route is chosen where the destination changes, and behind
/// it where the source does.
pub open spec fn translation_chain(k: FirewallNatKind) -> Seq<char> {
    match k {
        FirewallNatKind::DestinationNat => "MBED_PREROUTING"@,
        FirewallNatKind::Redirect => "MBED_PREROUTING"@,
        FirewallNatKind::SourceNat => "MBED_POSTROUTING"@,
        FirewallNatKind::Masquerade => "MBED_POSTROUTING"@,
    }
}

/// Whether a translation rule has lines in a family: it is enabled, and the address, if any, is of the family.
pub open spec fn is_translated(r: FirewallNatRuleView, family: IpFamily) -> bool {
    r.enabled && (r.translation_address matches Some(a) ==> match family {
        IpFamily::Ipv4 => a is V4,
        IpFamily::Ipv6 => a is V6,
    })
}

/// The line of a translation rule for one choice.
pub open spec fn translation_line(r: FirewallNatRuleView, matcher: Seq<char>) -> Seq<char> {
    "-A "@ + translation_chain(r.kind) + matcher + " -m comment --comment mbed:"@ + r.id + " "@
        + translation_words(r) + "\n"@
}

/// The lines of a translation rule.
pub open spec fn translation_text(c: RenderContextView, r: FirewallNatRuleView, family: IpFamily) -> Seq<char> {
    if is_translated(r, family) {
        let v = alternatives(
            c,
            r.matches,
            match r.kind {
                FirewallNatKind::DestinationNat => FirewallDirection::Input,
                FirewallNatKind::Redirect => FirewallDirection::Input,
                FirewallNatKind::SourceNat => FirewallDirection::Forward,
                FirewallNatKind::Masquerade => FirewallDirection::Forward,
            },
            family,
        )->Ok_0;
        flat(|k: int| translation_line(r, v[k]), 0, v.len() as int)
    } else {
        Seq::empty()
    }
}

proof fn lemma_all_translated(d: DraftView, r: FirewallNatRuleView, v: Seq<Seq<char>>, family: IpFamily, i: int)
    requires
        0 <= i <= v.len(),
        r.enabled,
        all_translated(d, r, v, family, i) is Ok,
    ensures
        all_translated(d, r, v, family, i)->Ok_0.text == (if is_translated(r, family) {
            d.text + flat(|k: int| translation_line(r, v[k]), i, v.len() as int)
        } else {
            d.text
        }),
    decreases v.len() - i,
{
    let f = |k: int| translation_line(r, v[k]);
    let n = v.len() as int;
    if i < n {
        match translation(r, family) {
            Ok(Some(target)) => {
                let line = rule_line(nat_chain(r.kind), v[i], Seq::empty(), r.id, target);
                let room = crate::firewall_iptables::counted(d)->Ok_0;
                lemma_all_translated(crate::firewall_iptables::written(room, line), r, v, family, i + 1);
                assert(target == translation_words(r));
                let head = "-A "@ + nat_chain(r.kind) + v[i];
                assert(head + Seq::<char>::empty() =~= head);
                assert(f(i) == line);
                assert(d.text + f(i) + flat(f, i + 1, n) =~= d.text + (f(i) + flat(f, i + 1, n)));
            },
            Ok(None) => {
                lemma_all_translated(d, r, v, family, i + 1);
            },
            Err(_) => {},
        }
    } else {
        assert(d.text + flat(f, i, n) =~= d.text);
    }
}

proof fn lemma_translated(d: DraftView, c: RenderContextView, family: IpFamily, i: int)
    requires
        0 <= i <= c.nat_rules.len(),
        translated(d, c, family, i) is Ok,
    ensures
        translated(d, c, family, i)->Ok_0.text == d.text + flat(
            |k: int| translation_text(c, c.nat_rules[k], family),
            i,
            c.nat_rules.len() as int,
        ),
    decreases c.nat_rules.len() - i,
{
    let f = |k: int| translation_text(c, c.nat_rules[k], family);
    let n = c.nat_rules.len() as int;
    if i < n {
        let r = c.nat_rules[i];
        assert(f(i) == translation_text(c, r, family));
        if !r.enabled {
            lemma_translated(d, c, family, i + 1);
            assert(d.text + flat(f, i + 1, n) =~= d.text + (f(i) + flat(f, i + 1, n)));
        } else {
            let direction = if is_prerouting(r.kind) {
                FirewallDirection::Input
            } else {
                FirewallDirection::Forward
            };
            let v = alternatives(c, r.matches, direction, family)->Ok_0;
            let next = all_translated(d, r, v, family, 0)->Ok_0;
            lemma_all_translated(d, r, v, family, 0);
            lemma_translated(next, c, family, i + 1);
            if is_translated(r, family) {
                assert(next.text == d.text + f(i));
            } else {
                assert(next.text =~= d.text + f(i));
            }
            assert(d.text + f(i) + flat(f, i + 1, n) =~= d.text + (f(i) + flat(f, i + 1, n)));
        }
    } else {
        assert(d.text + flat(f, i, n) =~= d.text);
    }
}

/// What stands at the head of a table: its name, and its chains with their jumps where there are none yet.
pub open spec fn head_text(table: Seq<char>, state: IptablesFamilyState) -> Seq<char> {
    headed("*"@ + table + "\n"@, table, state, 0)
}

proof fn lemma_headed(a: Seq<char>, b: Seq<char>, table: Seq<char>, state: IptablesFamilyState, k: int)
    requires
        0 <= k <= 6,
    ensures
        headed(a + b, table, state, k) == a + headed(b, table, state, k),
    decreases 6 - k,
{
    if k < 6 {
        let c = owned_chains()[k];
        let x = crate::firewall_iptables::declare_line(c);
        let y = crate::firewall_iptables::hook_line(c);
        if c.table != table {
            lemma_headed(a, b, table, state, k + 1);
        } else if state == IptablesFamilyState::Absent {
            assert(a + b + x + y =~= a + (b + x + y));
            lemma_headed(a, b + x + y, table, state, k + 1);
        } else {
            assert(a + b + x =~= a + (b + x));
            lemma_headed(a, b + x, table, state, k + 1);
        }
    }
}

proof fn lemma_opened(d: DraftView, table: Seq<char>, state: IptablesFamilyState)
    ensures
        opened(d, table, state).text == d.text + head_text(table, state),
{
    assert(d.text + "*"@ + table + "\n"@ =~= d.text + ("*"@ + table + "\n"@));
    lemma_headed(d.text, "*"@ + table + "\n"@, table, state, 0);
}

/// The rules of the filter table: the filter rules in their order, the forwardings and what the zones do with the
/// rest.
pub open spec fn filter_rules_text(c: RenderContextView, family: IpFamily) -> Seq<char> {
    flat(|k: int| filter_text(c, c.filter_rules[k], family), 0, c.filter_rules.len() as int) + flat(
        |k: int| forwarding_text(c, c.forwardings[k]),
        0,
        c.forwardings.len() as int,
    ) + flat(|k: int| zone_text(c.zones[k]), 0, c.zones.len() as int)
}

/// The rules of the table that translates addresses: the translation rules in their order, and the zones that hide
/// what is behind them.
pub open spec fn nat_rules_text(c: RenderContextView, family: IpFamily) -> Seq<char> {
    flat(|k: int| translation_text(c, c.nat_rules[k], family), 0, c.nat_rules.len() as int) + flat(
        |k: int| hide_text(c.zones[k]),
        0,
        c.zones.len() as int,
    )
}

/// The rules of the table that changes packets: the zones that fit segments to the path.
pub open spec fn mangle_rules_text(c: RenderContextView) -> Seq<char> {
    flat(|k: int| clamp_text(c.zones[k]), 0, c.zones.len() as int)
}

/// A restore is made of three tables, each with its head, the lines of its rules in their order and its end. Every
/// enabled rule has a line for each of its choices, under the chain of its direction and with its verdict or
/// translation, and no other rule has one.
pub proof fn law_restore_is_made_of_its_rules(c: RenderContextView, family: IpFamily, state: IptablesFamilyState)
    requires
        family_restore(c, family, state) is Ok,
    ensures
        family_restore(c, family, state)->Ok_0 == head_text("filter"@, state) + filter_rules_text(c, family)
            + "COMMIT\n"@ + head_text("mangle"@, state) + mangle_rules_text(c) + "COMMIT\n"@ + head_text(
            "nat"@,
            state,
        ) + nat_rules_text(c, family) + "COMMIT\n"@,
{
    reveal(family_restore);
    let d0 = DraftView { text: Seq::empty(), count: 0 };
    lemma_filter_table(d0, c, family, state);
    let d1 = filter_table(d0, c, family, state)->Ok_0;
    lemma_mangle_table(d1, c, state);
    let d2 = mangle_table(d1, c, state)->Ok_0;
    lemma_nat_table(d2, c, family, state);
    assert(d0.text + head_text("filter"@, state) =~= head_text("filter"@, state));
}

proof fn lemma_filter_table(d: DraftView, c: RenderContextView, family: IpFamily, state: IptablesFamilyState)
    requires
        filter_table(d, c, family, state) is Ok,
    ensures
        filter_table(d, c, family, state)->Ok_0.text == d.text + head_text("filter"@, state) + filter_rules_text(
            c,
            family,
        ) + "COMMIT\n"@,
{
    let o = opened(d, "filter"@, state);
    assert(all_filtered(o, c, family, 0) is Ok);
    let f1 = all_filtered(o, c, family, 0)->Ok_0;
    assert(forwarded(f1, c, 0) is Ok);
    let f2 = forwarded(f1, c, 0)->Ok_0;
    assert(policies(f2, c.zones, 0) is Ok);
    lemma_opened(d, "filter"@, state);
    lemma_all_filtered(o, c, family, 0);
    lemma_forwarded(f1, c, 0);
    lemma_policies(f2, c.zones, 0);
    let x = flat(|k: int| filter_text(c, c.filter_rules[k], family), 0, c.filter_rules.len() as int);
    let y = flat(|k: int| forwarding_text(c, c.forwardings[k]), 0, c.forwardings.len() as int);
    let z = flat(|k: int| zone_text(c.zones[k]), 0, c.zones.len() as int);
    lemma_three(o.text, x, y, z);
}

proof fn lemma_mangle_table(d: DraftView, c: RenderContextView, state: IptablesFamilyState)
    requires
        mangle_table(d, c, state) is Ok,
    ensures
        mangle_table(d, c, state)->Ok_0.text == d.text + head_text("mangle"@, state) + mangle_rules_text(c)
            + "COMMIT\n"@,
{
    let o = opened(d, "mangle"@, state);
    lemma_opened(d, "mangle"@, state);
    lemma_clamped(o, c.zones, 0);
}

proof fn lemma_nat_table(d: DraftView, c: RenderContextView, family: IpFamily, state: IptablesFamilyState)
    requires
        nat_table(d, c, family, state) is Ok,
    ensures
        nat_table(d, c, family, state)->Ok_0.text == d.text + head_text("nat"@, state) + nat_rules_text(c, family)
            + "COMMIT\n"@,
{
    let o = opened(d, "nat"@, state);
    lemma_opened(d, "nat"@, state);
    lemma_translated(o, c, family, 0);
    let n1 = translated(o, c, family, 0)->Ok_0;
    lemma_hidden(n1, c.zones, 0);
    let u = flat(|k: int| translation_text(c, c.nat_rules[k], family), 0, c.nat_rules.len() as int);
    let w = flat(|k: int| hide_text(c.zones[k]), 0, c.zones.len() as int);
    assert(o.text + u + w =~= o.text + (u + w));
}

/// A set keeps its name and whether it is enabled, and holds the text of each of its entries, which are all of one
/// kind. Networks need a family.
pub proof fn law_sets_keep_their_entries(s: FirewallAddressSetView)
    ensures
        set_expanded(s) is Some <==> s.entries.len() > 0 && exists|kind: SetKind| are_of(s, kind),
        set_expanded(s) matches Some(e) ==> e.id == s.id && e.enabled == s.enabled && e.entries.len()
            == s.entries.len() && are_of(s, e.kind) && forall|i: int|
            0 <= i < s.entries.len() ==> #[trigger] e.entries[i] == entry_word(s.entries[i]),
{
    if s.entries.len() > 0 {
        if let Some(kind) = set_kind(s) {
            let f = |e: FirewallSetEntryView| entry_text(e, kind);
            assert forall|i: int| 0 <= i < s.entries.len() implies (f(#[trigger] s.entries[i]) is Some <==> is_entry_of(
                s.entries[i],
                s.family,
                kind,
            )) by {}
            assert forall|i: int| 0 <= i < s.entries.len() && f(#[trigger] s.entries[i]) is Some implies f(
                s.entries[i],
            )->Some_0 == entry_word(s.entries[i]) by {}
            if set_expanded(s) is Some {
                assert(forall|i: int| 0 <= i < s.entries.len() ==> f(#[trigger] s.entries[i]) is Some);
                assert(are_of(s, kind));
            }
            if exists|k: SetKind| are_of(s, k) {
                let k = choose|k: SetKind| are_of(s, k);
                assert(is_entry_of(s.entries[0], s.family, k));
                assert(k == kind);
                assert(forall|i: int| 0 <= i < s.entries.len() ==> f(#[trigger] s.entries[i]) is Some);
            }
        } else {
            if exists|k: SetKind| are_of(s, k) {
                let k = choose|k: SetKind| are_of(s, k);
                assert(is_entry_of(s.entries[0], s.family, k));
            }
        }
    }
}

/// Whether all entries of a set are of a kind.
pub open spec fn are_of(s: FirewallAddressSetView, kind: SetKind) -> bool {
    forall|i: int| 0 <= i < s.entries.len() ==> is_entry_of(#[trigger] s.entries[i], s.family, kind)
}

/// Whether an object is in what a restore is made of.
pub open spec fn has_object(c: RenderContextView, o: FirewallObjectView) -> bool {
    match o {
        FirewallObjectView::Zone(z) => c.zones.contains(z),
        FirewallObjectView::Forwarding(f) => c.forwardings.contains(f),
        FirewallObjectView::FilterRule(r) => c.filter_rules.contains(r),
        FirewallObjectView::NatRule(r) => c.nat_rules.contains(r),
        FirewallObjectView::AddressSet(s) => set_expanded(s) is Some && c.sets.contains(set_expanded(s)->Some_0),
    }
}

pub proof fn lemma_insert_contains<A>(s: Seq<A>, k: int, a: A, x: A)
    requires
        0 <= k <= s.len(),
    ensures
        s.insert(k, a).contains(x) <==> s.contains(x) || x == a,
{
    let p = s.insert(k, a);
    assert(p[k] == a);
    if s.contains(x) {
        let i = choose|i: int| 0 <= i < s.len() && s[i] == x;
        if i < k {
            assert(p[i] == x);
        } else {
            assert(p[i + 1] == x);
        }
    }
    if p.contains(x) && x != a {
        let i = choose|i: int| 0 <= i < p.len() && p[i] == x;
        if i < k {
            assert(s[i] == x);
        } else {
            assert(s[i - 1] == x);
        }
    }
}

proof fn lemma_with_object(c: RenderContextView, o: FirewallObjectView, x: FirewallObjectView)
    requires
        is_ranked(c.filter_rules),
        is_ranked_nat(c.nat_rules),
        with_object(c, o) is Some,
    ensures
        ({
            let d = with_object(c, o)->Some_0;
            &&& is_ranked(d.filter_rules)
            &&& is_ranked_nat(d.nat_rules)
            &&& has_object(c, x) ==> has_object(d, x)
            &&& has_object(d, o)
            &&& !(x is AddressSet) && has_object(d, x) ==> has_object(c, x) || x == o
        }),
{
    let d = with_object(c, o)->Some_0;
    match o {
        FirewallObjectView::Zone(z) => {
            if let FirewallObjectView::Zone(y) = x {
                crate::rule_reading_laws::lemma_push_contains(c.zones, z, y);
            }
            crate::rule_reading_laws::lemma_push_contains(c.zones, z, z);
        },
        FirewallObjectView::Forwarding(z) => {
            if let FirewallObjectView::Forwarding(y) = x {
                crate::rule_reading_laws::lemma_push_contains(c.forwardings, z, y);
            }
            crate::rule_reading_laws::lemma_push_contains(c.forwardings, z, z);
        },
        FirewallObjectView::FilterRule(z) => {
            law_filter_rules_stand_in_order(c.filter_rules, z);
            let k = filter_slot(c.filter_rules, z, 0);
            crate::zone_laws::lemma_slot(c.filter_rules, z, 0);
            if let FirewallObjectView::FilterRule(y) = x {
                lemma_insert_contains(c.filter_rules, k, z, y);
            }
            lemma_insert_contains(c.filter_rules, k, z, z);
        },
        FirewallObjectView::NatRule(z) => {
            law_nat_rules_stand_in_order(c.nat_rules, z);
            let k = nat_slot(c.nat_rules, z, 0);
            crate::zone_laws::lemma_nat_slot(c.nat_rules, z, 0);
            if let FirewallObjectView::NatRule(y) = x {
                lemma_insert_contains(c.nat_rules, k, z, y);
            }
            lemma_insert_contains(c.nat_rules, k, z, z);
        },
        FirewallObjectView::AddressSet(s) => {
            let e = set_expanded(s)->Some_0;
            if let FirewallObjectView::AddressSet(y) = x {
                crate::rule_reading_laws::lemma_push_contains(c.sets, e, set_expanded(y)->Some_0);
            }
            crate::rule_reading_laws::lemma_push_contains(c.sets, e, e);
        },
    }
}

proof fn lemma_context(c: RenderContextView, objects: Seq<FirewallObjectView>, i: int, x: FirewallObjectView)
    requires
        0 <= i <= objects.len(),
        is_ranked(c.filter_rules),
        is_ranked_nat(c.nat_rules),
        context_of(c, objects, i) is Some,
    ensures
        ({
            let d = context_of(c, objects, i)->Some_0;
            &&& is_ranked(d.filter_rules)
            &&& is_ranked_nat(d.nat_rules)
            &&& has_object(c, x) || (exists|k: int| i <= k < objects.len() && #[trigger] objects[k] == x)
                ==> has_object(d, x)
            &&& !(x is AddressSet) && has_object(d, x) ==> has_object(c, x) || exists|k: int|
                i <= k < objects.len() && #[trigger] objects[k] == x
        }),
    decreases objects.len() - i,
{
    if i < objects.len() {
        let next = with_object(c, objects[i])->Some_0;
        lemma_with_object(c, objects[i], x);
        lemma_context(next, objects, i + 1, x);
        if exists|k: int| i <= k < objects.len() && #[trigger] objects[k] == x {
            let k = choose|k: int| i <= k < objects.len() && #[trigger] objects[k] == x;
            assert(k == i || i + 1 <= k);
        }
    }
}

/// What a restore is made of are the given objects: each of them is there, every zone, forwarding and rule is one of
/// them, and the rules stand in their order.
pub proof fn law_restore_is_made_of_the_objects(objects: Seq<FirewallObjectView>, x: FirewallObjectView)
    requires
        context_of(empty_context(), objects, 0) is Some,
    ensures
        ({
            let c = context_of(empty_context(), objects, 0)->Some_0;
            &&& is_ranked(c.filter_rules)
            &&& is_ranked_nat(c.nat_rules)
            &&& objects.contains(x) ==> has_object(c, x)
            &&& !(x is AddressSet) && has_object(c, x) ==> objects.contains(x)
        }),
{
    lemma_context(empty_context(), objects, 0, x);
    if objects.contains(x) {
        let k = choose|k: int| 0 <= k < objects.len() && objects[k] == x;
        assert(objects[k] == x);
    }
}

} // verus!
