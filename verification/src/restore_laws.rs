//! The restore artifacts of absent and of owned chains differ by the six jumps only.

use vstd::prelude::*;

use crate::firewall_iptables::{
    all_filtered, all_matched, all_translated, all_zone_lines, alternatives, chain_of, context_of, limit_text,
    log_line, target_of, counted, declare_line, empty_context, family_restore, filter_table, filtered,
    forward_line, forwarded, forwarded_from, forwarded_to, headed, hook_line, iptables_stage, is_prerouting,
    logged, mangle_table, masquerade_line, matched, mtu_line, nat_chain, nat_table, opened, owned_chains,
    policies, policy, policy_line, rule_line, translated, translation, written, zone_lines, zone_policies,
    DraftView, IpFamily, IptablesFamilyState, IptablesRenderErrorView, RenderContextView, MAX_RESTORE_BYTES,
};
use crate::firewall_model::{
    FirewallDirection, FirewallFilterRuleView, FirewallNatRuleView, FirewallObjectView,
    FirewallPlannedChangeView, FirewallZoneView,
};
use crate::firewall_project::projected;
use crate::firewall_zones::zone_from;
use crate::isolation_laws::{
    is_inline, is_inline_context, is_inline_object, is_isolated, is_one_line, is_owned_line,
    lemma_all_filtered, lemma_all_zone_lines, lemma_context, lemma_forwarded, lemma_head_lines,
    lemma_line_ends, lemma_policies, lemma_table_line, lemma_translated, opens_line,
};
use crate::net_laws::lemma_find_at;
use crate::text::{byte_len, chomp, find_from, lemma_find_from, lines, lines_from, starts};

verus! {

/// A draft, or why there is none.
pub type Drafted = Result<DraftView, IptablesRenderErrorView>;

/// Whether a text is empty, or ends with a line.
pub open spec fn is_whole(text: Seq<char>) -> bool {
    text.len() == 0 || text.last() == '\n'
}

proof fn lemma_lines_from_append(a: Seq<char>, b: Seq<char>, from: int)
    requires
        a.len() > 0,
        a.last() == '\n',
        0 <= from <= a.len(),
    ensures
        lines_from(a + b, from) == lines_from(a, from) + lines_from(a + b, a.len() as int),
    decreases a.len() - from,
{
    let s = a + b;
    if from < a.len() {
        lemma_find_from(a, '\n', from);
        let k = find_from(a, '\n', from);
        assert(k < a.len()) by {
            if k == a.len() {
                assert(a[a.len() - 1] == '\n');
            }
        }
        assert forall|j: int| from <= j < k implies s[j] != '\n' by {
            assert(s[j] == a[j]);
        }
        assert(s[k] == a[k]);
        lemma_find_at(s, '\n', from, k);
        assert(s.subrange(from, k) =~= a.subrange(from, k));
        lemma_lines_from_append(a, b, k + 1);
        assert(lines_from(s, from) =~= lines_from(a, from) + lines_from(s, a.len() as int));
    } else {
        assert(lines_from(a, from) =~= Seq::empty());
        assert(lines_from(s, from) =~= lines_from(a, from) + lines_from(s, a.len() as int));
    }
}

proof fn lemma_lines_shift(a: Seq<char>, b: Seq<char>, from: int)
    requires
        0 <= from <= b.len(),
    ensures
        lines_from(a + b, a.len() + from) == lines_from(b, from),
    decreases b.len() - from,
{
    let s = a + b;
    if from < b.len() {
        lemma_find_from(b, '\n', from);
        let k = find_from(b, '\n', from);
        assert forall|j: int| a.len() + from <= j < a.len() + k implies s[j] != '\n' by {
            assert(s[j] == b[j - a.len()]);
        }
        if k < b.len() {
            assert(s[a.len() + k] == b[k]);
            lemma_find_at(s, '\n', a.len() + from, a.len() + k);
            lemma_lines_shift(a, b, k + 1);
            assert(s.subrange(a.len() + from, a.len() + k) =~= b.subrange(from, k));
        } else {
            lemma_find_from(s, '\n', a.len() + from);
            assert(s.subrange(a.len() + from, s.len() as int) =~= b.subrange(from, b.len() as int));
        }
    }
}

/// The lines of a text behind whole lines come behind these.
pub proof fn lemma_lines_append(a: Seq<char>, b: Seq<char>)
    requires
        is_whole(a),
    ensures
        lines(a + b) == lines(a) + lines(b),
{
    if a.len() > 0 {
        lemma_lines_from_append(a, b, 0);
        lemma_lines_shift(a, b, 0);
    } else {
        assert(a + b =~= b);
        assert(lines(a) + lines(b) =~= lines(b));
    }
}

/// One line is the line of its text.
pub proof fn lemma_lines_one(line: Seq<char>)
    requires
        is_one_line(line),
    ensures
        lines(line) == seq![chomp(line.drop_last())],
        is_whole(line),
{
    reveal(is_one_line);
    reveal(is_inline);
    let k = line.len() - 1;
    assert forall|j: int| 0 <= j < k implies line[j] != '\n' by {
        assert(line.drop_last()[j] == line[j]);
    }
    lemma_find_at(line, '\n', 0, k);
    assert(line.subrange(0, k) =~= line.drop_last());
    assert(lines_from(line, k + 1) =~= Seq::empty());
}

/// A draft with nothing written, but with a number of rules.
pub open spec fn fresh(count: int) -> DraftView {
    DraftView { text: Seq::empty(), count }
}

/// What a draft comes to behind a text.
pub open spec fn lift(text: Seq<char>, r: Drafted) -> Drafted {
    match r {
        Err(e) => Err(e),
        Ok(d) => Ok(DraftView { text: text + d.text, count: d.count }),
    }
}

proof fn lemma_lift_twice(a: Seq<char>, b: Seq<char>, r: Drafted)
    ensures
        lift(a, lift(b, r)) == lift(a + b, r),
{
    if let Ok(d) = r {
        assert(a + (b + d.text) =~= a + b + d.text);
    }
}

proof fn lemma_lift_fresh(text: Seq<char>, count: int)
    ensures
        text + Seq::<char>::empty() == text,
        lift(text, Ok(fresh(count))) == Ok::<DraftView, IptablesRenderErrorView>(
            (DraftView { text, count }),
        ),
{
    assert(text + Seq::<char>::empty() =~= text);
}

proof fn lemma_logged(d: DraftView, r: FirewallFilterRuleView, matcher: Seq<char>)
    ensures
        logged(d, r, matcher) == lift(d.text, logged(fresh(d.count), r, matcher)),
{
    lemma_lift_fresh(d.text, d.count);
    if let Some(log) = r.log {
        let line = log_line(
            chain_of(r.direction),
            matcher,
            r.id,
            log.prefix,
            log.level,
        );
        assert(Seq::<char>::empty() + line =~= line);
    }
}

proof fn lemma_matched(
    d: DraftView,
    r: FirewallFilterRuleView,
    matcher: Seq<char>,
    family: IpFamily,
)
    ensures
        matched(d, r, matcher, family) == lift(d.text, matched(fresh(d.count), r, matcher, family)),
{
    lemma_logged(d, r, matcher);
    if let Ok(e) = logged(fresh(d.count), r, matcher) {
        if let Some(target) = target_of(r.verdict, r.reject_with, family) {
            let line = rule_line(
                chain_of(r.direction),
                matcher,
                limit_text(r.rate_limit),
                r.id,
                target,
            );
            assert(d.text + e.text + line =~= d.text + (e.text + line));
        }
    }
}

proof fn lemma_all_matched(d: DraftView, r: FirewallFilterRuleView, matchers: Seq<Seq<char>>, family: IpFamily, i: int)
    requires
        0 <= i,
    ensures
        all_matched(d, r, matchers, family, i) == lift(d.text, all_matched(fresh(d.count), r, matchers, family, i)),
    decreases matchers.len() - i,
{
    if i < matchers.len() {
        lemma_matched(d, r, matchers[i], family);
        if let Ok(e) = matched(fresh(d.count), r, matchers[i], family) {
            let far = DraftView { text: d.text + e.text, count: e.count };
            lemma_all_matched(far, r, matchers, family, i + 1);
            lemma_all_matched(e, r, matchers, family, i + 1);
            lemma_lift_twice(d.text, e.text, all_matched(fresh(e.count), r, matchers, family, i + 1));
        }
    } else {
        lemma_lift_fresh(d.text, d.count);
    }
}

proof fn lemma_filtered(
    d: DraftView,
    c: RenderContextView,
    r: FirewallFilterRuleView,
    family: IpFamily,
)
    ensures
        filtered(d, c, r, family) == lift(d.text, filtered(fresh(d.count), c, r, family)),
{
    lemma_lift_fresh(d.text, d.count);
    if let Ok(matchers) = alternatives(c, r.matches, r.direction, family) {
        lemma_all_matched(d, r, matchers, family, 0);
    }
}

proof fn lemma_all_filtered_lift(d: DraftView, c: RenderContextView, family: IpFamily, i: int)
    requires
        0 <= i,
    ensures
        all_filtered(d, c, family, i) == lift(d.text, all_filtered(fresh(d.count), c, family, i)),
    decreases c.filter_rules.len() - i,
{
    if i < c.filter_rules.len() {
        lemma_filtered(d, c, c.filter_rules[i], family);
        if let Ok(e) = filtered(fresh(d.count), c, c.filter_rules[i], family) {
            let far = DraftView { text: d.text + e.text, count: e.count };
            lemma_all_filtered_lift(far, c, family, i + 1);
            lemma_all_filtered_lift(e, c, family, i + 1);
            lemma_lift_twice(d.text, e.text, all_filtered(fresh(e.count), c, family, i + 1));
        }
    } else {
        lemma_lift_fresh(d.text, d.count);
    }
}

/// What a draft with one more rule comes to.
pub open spec fn with_rule(d: DraftView, line: Seq<char>) -> Drafted {
    match counted(d) {
        Err(e) => Err(e),
        Ok(room) => Ok(written(room, line)),
    }
}

proof fn lemma_with_rule(d: DraftView, line: Seq<char>)
    ensures
        with_rule(d, line) == lift(d.text, with_rule(fresh(d.count), line)),
{
    assert(Seq::<char>::empty() + line =~= line);
}

proof fn lemma_forwarded_to(d: DraftView, input: Seq<char>, outputs: Seq<Seq<char>>, id: Seq<char>, j: int)
    requires
        0 <= j,
    ensures
        forwarded_to(d, input, outputs, id, j) == lift(d.text, forwarded_to(fresh(d.count), input, outputs, id, j)),
    decreases outputs.len() - j,
{
    if j < outputs.len() {
        let line = forward_line(input, outputs[j], id);
        lemma_with_rule(d, line);
        if let Ok(e) = with_rule(fresh(d.count), line) {
            let far = DraftView { text: d.text + e.text, count: e.count };
            lemma_forwarded_to(far, input, outputs, id, j + 1);
            lemma_forwarded_to(e, input, outputs, id, j + 1);
            lemma_lift_twice(d.text, e.text, forwarded_to(fresh(e.count), input, outputs, id, j + 1));
        }
    } else {
        lemma_lift_fresh(d.text, d.count);
    }
}

proof fn lemma_forwarded_from(d: DraftView, inputs: Seq<Seq<char>>, outputs: Seq<Seq<char>>, id: Seq<char>, i: int)
    requires
        0 <= i,
    ensures
        forwarded_from(d, inputs, outputs, id, i) == lift(d.text, forwarded_from(fresh(d.count), inputs, outputs, id, i)),
    decreases inputs.len() - i,
{
    if i < inputs.len() {
        lemma_forwarded_to(d, inputs[i], outputs, id, 0);
        if let Ok(e) = forwarded_to(fresh(d.count), inputs[i], outputs, id, 0) {
            let far = DraftView { text: d.text + e.text, count: e.count };
            lemma_forwarded_from(far, inputs, outputs, id, i + 1);
            lemma_forwarded_from(e, inputs, outputs, id, i + 1);
            lemma_lift_twice(d.text, e.text, forwarded_from(fresh(e.count), inputs, outputs, id, i + 1));
        }
    } else {
        lemma_lift_fresh(d.text, d.count);
    }
}

proof fn lemma_forwarded_lift(d: DraftView, c: RenderContextView, i: int)
    requires
        0 <= i,
    ensures
        forwarded(d, c, i) == lift(d.text, forwarded(fresh(d.count), c, i)),
    decreases c.forwardings.len() - i,
{
    if i < c.forwardings.len() {
        let f = c.forwardings[i];
        if !f.enabled {
            lemma_forwarded_lift(d, c, i + 1);
        } else if let (Some(s), Some(t)) = (
            zone_from(c.zones, f.source_zone, 0),
            zone_from(c.zones, f.destination_zone, 0),
        ) {
            lemma_forwarded_from(d, s.networks, t.networks, f.id, 0);
            if let Ok(e) = forwarded_from(fresh(d.count), s.networks, t.networks, f.id, 0) {
                let far = DraftView { text: d.text + e.text, count: e.count };
                lemma_forwarded_lift(far, c, i + 1);
                lemma_forwarded_lift(e, c, i + 1);
                lemma_lift_twice(d.text, e.text, forwarded(fresh(e.count), c, i + 1));
            }
        }
    } else {
        lemma_lift_fresh(d.text, d.count);
    }
}

/// What a draft with the three policies of an interface comes to.
pub open spec fn with_policies(d: DraftView, z: FirewallZoneView, i: int) -> Drafted {
    let input = policy(
        Ok(d),
        policy_line("MBED_INPUT"@, "-i"@, z.networks[i], z.id, z.input),
    );
    let output = policy(
        input,
        policy_line("MBED_OUTPUT"@, "-o"@, z.networks[i], z.id, z.output),
    );
    policy(output, policy_line("MBED_FORWARD"@, "-i"@, z.networks[i], z.id, z.forward))
}

proof fn lemma_policy(text: Seq<char>, r: Drafted, line: Seq<char>)
    ensures
        policy(lift(text, r), line) == lift(text, policy(r, line)),
{
    if let Ok(d) = r {
        assert(text + d.text + line =~= text + (d.text + line));
    }
}

proof fn lemma_with_policies(d: DraftView, z: FirewallZoneView, i: int)
    ensures
        with_policies(d, z, i) == lift(d.text, with_policies(fresh(d.count), z, i)),
{
    let a = policy_line("MBED_INPUT"@, "-i"@, z.networks[i], z.id, z.input);
    let b = policy_line("MBED_OUTPUT"@, "-o"@, z.networks[i], z.id, z.output);
    let c = policy_line("MBED_FORWARD"@, "-i"@, z.networks[i], z.id, z.forward);
    let start = Ok::<DraftView, IptablesRenderErrorView>(fresh(d.count));
    lemma_lift_fresh(d.text, d.count);
    lemma_policy(d.text, start, a);
    lemma_policy(d.text, policy(start, a), b);
    lemma_policy(d.text, policy(policy(start, a), b), c);
}

proof fn lemma_zone_policies(d: DraftView, z: FirewallZoneView, i: int)
    requires
        0 <= i,
    ensures
        zone_policies(d, z, i) == lift(d.text, zone_policies(fresh(d.count), z, i)),
    decreases z.networks.len() - i,
{
    if i < z.networks.len() {
        lemma_with_policies(d, z, i);
        if let Ok(e) = with_policies(fresh(d.count), z, i) {
            let far = DraftView { text: d.text + e.text, count: e.count };
            lemma_zone_policies(far, z, i + 1);
            lemma_zone_policies(e, z, i + 1);
            lemma_lift_twice(d.text, e.text, zone_policies(fresh(e.count), z, i + 1));
        }
    } else {
        lemma_lift_fresh(d.text, d.count);
    }
}

proof fn lemma_policies_lift(d: DraftView, zones: Seq<FirewallZoneView>, i: int)
    requires
        0 <= i,
    ensures
        policies(d, zones, i) == lift(d.text, policies(fresh(d.count), zones, i)),
    decreases zones.len() - i,
{
    if i < zones.len() {
        if !zones[i].enabled {
            lemma_policies_lift(d, zones, i + 1);
        } else {
            lemma_zone_policies(d, zones[i], 0);
            if let Ok(e) = zone_policies(fresh(d.count), zones[i], 0) {
                let far = DraftView { text: d.text + e.text, count: e.count };
                lemma_policies_lift(far, zones, i + 1);
                lemma_policies_lift(e, zones, i + 1);
                lemma_lift_twice(d.text, e.text, policies(fresh(e.count), zones, i + 1));
            }
        }
    } else {
        lemma_lift_fresh(d.text, d.count);
    }
}

proof fn lemma_zone_lines(d: DraftView, z: FirewallZoneView, mtu: bool, i: int)
    requires
        0 <= i,
    ensures
        zone_lines(d, z, mtu, i) == lift(d.text, zone_lines(fresh(d.count), z, mtu, i)),
    decreases z.networks.len() - i,
{
    if i < z.networks.len() {
        let line = if mtu {
            mtu_line(z.networks[i], z.id)
        } else {
            masquerade_line(z.networks[i], z.id)
        };
        lemma_with_rule(d, line);
        if let Ok(e) = with_rule(fresh(d.count), line) {
            let far = DraftView { text: d.text + e.text, count: e.count };
            lemma_zone_lines(far, z, mtu, i + 1);
            lemma_zone_lines(e, z, mtu, i + 1);
            lemma_lift_twice(d.text, e.text, zone_lines(fresh(e.count), z, mtu, i + 1));
        }
    } else {
        lemma_lift_fresh(d.text, d.count);
    }
}

proof fn lemma_all_zone_lines_lift(d: DraftView, zones: Seq<FirewallZoneView>, mtu: bool, i: int)
    requires
        0 <= i,
    ensures
        all_zone_lines(d, zones, mtu, i) == lift(d.text, all_zone_lines(fresh(d.count), zones, mtu, i)),
    decreases zones.len() - i,
{
    if i < zones.len() {
        if !(zones[i].enabled && (if mtu {
            zones[i].mtu_fix
        } else {
            zones[i].masquerade
        })) {
            lemma_all_zone_lines_lift(d, zones, mtu, i + 1);
        } else {
            lemma_zone_lines(d, zones[i], mtu, 0);
            if let Ok(e) = zone_lines(fresh(d.count), zones[i], mtu, 0) {
                let far = DraftView { text: d.text + e.text, count: e.count };
                lemma_all_zone_lines_lift(far, zones, mtu, i + 1);
                lemma_all_zone_lines_lift(e, zones, mtu, i + 1);
                lemma_lift_twice(d.text, e.text, all_zone_lines(fresh(e.count), zones, mtu, i + 1));
            }
        }
    } else {
        lemma_lift_fresh(d.text, d.count);
    }
}

proof fn lemma_all_translated(
    d: DraftView,
    r: FirewallNatRuleView,
    matchers: Seq<Seq<char>>,
    family: IpFamily,
    i: int,
)
    requires
        0 <= i,
    ensures
        all_translated(d, r, matchers, family, i) == lift(
            d.text,
            all_translated(fresh(d.count), r, matchers, family, i),
        ),
    decreases matchers.len() - i,
{
    if i < matchers.len() {
        match translation(r, family) {
            Ok(Some(target)) => {
                let line = rule_line(nat_chain(r.kind), matchers[i], Seq::empty(), r.id, target);
                lemma_with_rule(d, line);
                if let Ok(e) = with_rule(fresh(d.count), line) {
                    let far = DraftView { text: d.text + e.text, count: e.count };
                    lemma_all_translated(far, r, matchers, family, i + 1);
                    lemma_all_translated(e, r, matchers, family, i + 1);
                    lemma_lift_twice(
                        d.text,
                        e.text,
                        all_translated(fresh(e.count), r, matchers, family, i + 1),
                    );
                }
            },
            Ok(None) => {
                lemma_all_translated(d, r, matchers, family, i + 1);
            },
            Err(_) => {},
        }
    } else {
        lemma_lift_fresh(d.text, d.count);
    }
}

proof fn lemma_translated_lift(d: DraftView, c: RenderContextView, family: IpFamily, i: int)
    requires
        0 <= i,
    ensures
        translated(d, c, family, i) == lift(d.text, translated(fresh(d.count), c, family, i)),
    decreases c.nat_rules.len() - i,
{
    if i < c.nat_rules.len() {
        let r = c.nat_rules[i];
        let direction = if is_prerouting(r.kind) {
            FirewallDirection::Input
        } else {
            FirewallDirection::Forward
        };
        if !r.enabled {
            lemma_translated_lift(d, c, family, i + 1);
        } else if let Ok(matchers) = alternatives(c, r.matches, direction, family) {
            lemma_all_translated(d, r, matchers, family, 0);
            if let Ok(e) = all_translated(fresh(d.count), r, matchers, family, 0) {
                let far = DraftView { text: d.text + e.text, count: e.count };
                lemma_translated_lift(far, c, family, i + 1);
                lemma_translated_lift(e, c, family, i + 1);
                lemma_lift_twice(d.text, e.text, translated(fresh(e.count), c, family, i + 1));
            }
        }
    } else {
        lemma_lift_fresh(d.text, d.count);
    }
}

proof fn lemma_headed(
    text: Seq<char>,
    x: Seq<char>,
    table: Seq<char>,
    state: IptablesFamilyState,
    k: int,
)
    requires
        0 <= k,
    ensures
        headed(text + x, table, state, k) == text + headed(x, table, state, k),
    decreases 6 - k,
{
    if k < 6 {
        let c = owned_chains()[k];
        let one = x + declare_line(c);
        let two = x + declare_line(c) + hook_line(c);
        assert(text + x + declare_line(c) =~= text + one);
        assert(text + x + declare_line(c) + hook_line(c) =~= text + two);
        lemma_headed(text, x, table, state, k + 1);
        lemma_headed(text, one, table, state, k + 1);
        lemma_headed(text, two, table, state, k + 1);
    }
}

/// The head of a table.
pub open spec fn head(table: Seq<char>, state: IptablesFamilyState) -> Seq<char> {
    headed("*"@ + table + "\n"@, table, state, 0)
}

/// A head behind a text is the text with the head behind it.
pub proof fn lemma_headed_shift(
    text: Seq<char>,
    first: Seq<char>,
    table: Seq<char>,
    k: int,
)
    requires
        0 <= k,
    ensures
        headed(text + first, table, IptablesFamilyState::Absent, k) == text + headed(
            first,
            table,
            IptablesFamilyState::Absent,
            k,
        ),
{
    lemma_headed(text, first, table, IptablesFamilyState::Absent, k);
}

proof fn lemma_opened(d: DraftView, table: Seq<char>, state: IptablesFamilyState)
    ensures
        opened(d, table, state) == (DraftView { text: d.text + head(table, state), count: d.count }),
{
    let line = "*"@ + table + "\n"@;
    assert(d.text + "*"@ + table + "\n"@ =~= d.text + line);
    lemma_headed(d.text, line, table, state, 0);
}

/// The rules of the filter table, of which `count` rules came before.
pub open spec fn filter_rules(c: RenderContextView, family: IpFamily, count: int) -> Drafted {
    match all_filtered(fresh(count), c, family, 0) {
        Err(e) => Err(e),
        Ok(d1) => match forwarded(d1, c, 0) {
            Err(e) => Err(e),
            Ok(d2) => policies(d2, c.zones, 0),
        },
    }
}

/// The rules of the mangle table, of which `count` rules came before.
pub open spec fn mangle_rules(c: RenderContextView, count: int) -> Drafted {
    all_zone_lines(fresh(count), c.zones, true, 0)
}

/// The rules of the nat table, of which `count` rules came before.
pub open spec fn nat_rules(c: RenderContextView, family: IpFamily, count: int) -> Drafted {
    match translated(fresh(count), c, family, 0) {
        Err(e) => Err(e),
        Ok(d1) => all_zone_lines(d1, c.zones, false, 0),
    }
}

/// A table: its head, its rules, and the line that commits it.
pub open spec fn table_of(
    table: Seq<char>,
    state: IptablesFamilyState,
    rules: Seq<char>,
) -> Seq<char> {
    head(table, state) + rules + "COMMIT\n"@
}

/// A draft with a table behind it.
pub open spec fn with_table(
    d: DraftView,
    table: Seq<char>,
    state: IptablesFamilyState,
    rules: Drafted,
) -> Drafted {
    match rules {
        Err(e) => Err(e),
        Ok(r) => Ok(
            DraftView { text: d.text + table_of(table, state, r.text), count: r.count },
        ),
    }
}

proof fn lemma_filter_table(
    d: DraftView,
    c: RenderContextView,
    family: IpFamily,
    state: IptablesFamilyState,
)
    ensures
        filter_table(d, c, family, state) == with_table(
            d,
            "filter"@,
            state,
            filter_rules(c, family, d.count),
        ),
{
    lemma_opened(d, "filter"@, state);
    let o = opened(d, "filter"@, state);
    lemma_all_filtered_lift(o, c, family, 0);
    if let Ok(d1) = all_filtered(fresh(d.count), c, family, 0) {
        let e1 = DraftView { text: o.text + d1.text, count: d1.count };
        lemma_forwarded_lift(e1, c, 0);
        lemma_forwarded_lift(d1, c, 0);
        lemma_lift_twice(o.text, d1.text, forwarded(fresh(d1.count), c, 0));
        if let Ok(d2) = forwarded(d1, c, 0) {
            let e2 = DraftView { text: o.text + d2.text, count: d2.count };
            lemma_policies_lift(e2, c.zones, 0);
            lemma_policies_lift(d2, c.zones, 0);
            lemma_lift_twice(o.text, d2.text, policies(fresh(d2.count), c.zones, 0));
            if let Ok(d3) = policies(d2, c.zones, 0) {
                assert(o.text + d3.text + "COMMIT\n"@ =~= d.text + table_of(
                    "filter"@,
                    state,
                    d3.text,
                ));
            }
        }
    }
}

proof fn lemma_mangle_table(d: DraftView, c: RenderContextView, state: IptablesFamilyState)
    ensures
        mangle_table(d, c, state) == with_table(d, "mangle"@, state, mangle_rules(c, d.count)),
{
    lemma_opened(d, "mangle"@, state);
    let o = opened(d, "mangle"@, state);
    lemma_all_zone_lines_lift(o, c.zones, true, 0);
    if let Ok(d1) = mangle_rules(c, d.count) {
        assert(o.text + d1.text + "COMMIT\n"@ =~= d.text + table_of("mangle"@, state, d1.text));
    }
}

proof fn lemma_nat_table(
    d: DraftView,
    c: RenderContextView,
    family: IpFamily,
    state: IptablesFamilyState,
)
    ensures
        nat_table(d, c, family, state) == with_table(d, "nat"@, state, nat_rules(c, family, d.count)),
{
    lemma_opened(d, "nat"@, state);
    let o = opened(d, "nat"@, state);
    lemma_translated_lift(o, c, family, 0);
    if let Ok(d1) = translated(fresh(d.count), c, family, 0) {
        let e1 = DraftView { text: o.text + d1.text, count: d1.count };
        lemma_all_zone_lines_lift(e1, c.zones, false, 0);
        lemma_all_zone_lines_lift(d1, c.zones, false, 0);
        lemma_lift_twice(o.text, d1.text, all_zone_lines(fresh(d1.count), c.zones, false, 0));
        if let Ok(d2) = all_zone_lines(d1, c.zones, false, 0) {
            assert(o.text + d2.text + "COMMIT\n"@ =~= d.text + table_of("nat"@, state, d2.text));
        }
    }
}

/// The rules of the three tables, whatever the state of the chains is.
pub open spec fn rules_of(c: RenderContextView, family: IpFamily) -> Result<
    (Seq<char>, Seq<char>, Seq<char>),
    IptablesRenderErrorView,
> {
    match filter_rules(c, family, 0) {
        Err(e) => Err(e),
        Ok(f) => match mangle_rules(c, f.count) {
            Err(e) => Err(e),
            Ok(m) => match nat_rules(c, family, m.count) {
                Err(e) => Err(e),
                Ok(n) => Ok((f.text, m.text, n.text)),
            },
        },
    }
}

/// The text of the three tables.
pub open spec fn assembled(
    state: IptablesFamilyState,
    rules: (Seq<char>, Seq<char>, Seq<char>),
) -> Seq<char> {
    table_of("filter"@, state, rules.0) + table_of("mangle"@, state, rules.1) + table_of(
        "nat"@,
        state,
        rules.2,
    )
}

/// A restore artifact is made of heads that depend on the state of the chains, and of rules that do not.
pub proof fn lemma_restore_parts(c: RenderContextView, family: IpFamily, state: IptablesFamilyState)
    ensures
        family_restore(c, family, state) == (match rules_of(c, family) {
            Err(e) => Err(e),
            Ok(r) => if byte_len(assembled(state, r)) > MAX_RESTORE_BYTES {
                Err(IptablesRenderErrorView::Capacity)
            } else {
                Ok(assembled(state, r))
            },
        }),
{
    reveal(family_restore);
    let d0 = fresh(0);
    lemma_filter_table(d0, c, family, state);
    if let Ok(f) = filter_rules(c, family, 0) {
        let d1 = DraftView { text: table_of("filter"@, state, f.text), count: f.count };
        assert(d0.text + table_of("filter"@, state, f.text) =~= d1.text);
        lemma_mangle_table(d1, c, state);
        if let Ok(m) = mangle_rules(c, f.count) {
            let d2 = DraftView {
                text: d1.text + table_of("mangle"@, state, m.text),
                count: m.count,
            };
            lemma_nat_table(d2, c, family, state);
        }
    }
}

/// Whether a line is one of the six jumps to the managed chains.
pub open spec fn is_jump(line: Seq<char>) -> bool {
    exists|k: int| 0 <= k < 6 && line + "\n"@ == #[trigger] hook_line(owned_chains()[k])
}

/// The lines that are none of the six jumps, in their order.
pub open spec fn without_jumps(l: Seq<Seq<char>>) -> Seq<Seq<char>> {
    l.filter(|line: Seq<char>| !is_jump(line))
}

proof fn lemma_without_all(l: Seq<Seq<char>>)
    requires
        forall|i: int| 0 <= i < l.len() ==> !is_jump(#[trigger] l[i]),
    ensures
        without_jumps(l) == l,
    decreases l.len(),
{
    reveal(Seq::filter);
    if l.len() > 0 {
        assert forall|i: int| 0 <= i < l.drop_last().len() implies !is_jump(
            #[trigger] l.drop_last()[i],
        ) by {
            assert(l.drop_last()[i] == l[i]);
        }
        lemma_without_all(l.drop_last());
        assert(!is_jump(l.last()));
        assert(l.drop_last().push(l.last()) =~= l);
    } else {
        assert(without_jumps(l) =~= l);
    }
}

proof fn lemma_without_add(a: Seq<Seq<char>>, b: Seq<Seq<char>>)
    ensures
        without_jumps(a + b) == without_jumps(a) + without_jumps(b),
{
    Seq::filter_distributes_over_add(a, b, |line: Seq<char>| !is_jump(line));
}

/// Each line of a text stands at the beginning of a line.
proof fn lemma_line_start(text: Seq<char>, from: int, i: int)
    requires
        0 <= from <= text.len(),
        from < text.len() ==> opens_line(text, from),
        0 <= i < lines_from(text, from).len(),
    ensures
        exists|k: int| #[trigger]
            opens_line(text, k) && starts(text.skip(k), lines_from(text, from)[i]),
    decreases text.len() - from,
{
    if from < text.len() {
        lemma_find_from(text, '\n', from);
        let k = find_from(text, '\n', from);
        let rest = lines_from(text, k + 1);
        if i == 0 {
            let line = lines_from(text, from)[0];
            assert(opens_line(text, from));
            if k < text.len() {
                assert(line == chomp(text.subrange(from, k)));
            }
            assert(text.skip(from).take(line.len() as int) =~= line);
        } else if k < text.len() {
            assert(lines_from(text, from)[i] == rest[i - 1]);
            assert(k + 1 < text.len() ==> opens_line(text, k + 1));
            lemma_line_start(text, k + 1, i - 1);
        }
    }
}

/// Lines that are isolated without jumps hold none.
proof fn lemma_isolated_lines(text: Seq<char>, i: int)
    requires
        is_isolated(false, 0, 0, text),
        0 <= i < lines(text).len(),
    ensures
        !is_jump(lines(text)[i]),
{
    reveal(is_isolated);
    let line = lines(text)[i];
    lemma_line_start(text, 0, i);
    let k = choose|k: int| #[trigger]
        opens_line(text, k) && starts(text.skip(k), lines_from(text, 0)[i]);
    let t = text.skip(k);
    assert(is_owned_line(false, t));
    if is_jump(line) {
        let q = choose|q: int| 0 <= q < 6 && line + "\n"@ == #[trigger] hook_line(owned_chains()[q]);
        let p = hook_line(owned_chains()[q]);
        lemma_head_lines(true, q);
        reveal_strlit("\n");
        reveal_strlit("-A MBED_");
        reveal_strlit("*");
        reveal_strlit(":MBED_");
        reveal_strlit("COMMIT\n");
        reveal_strlit("-A ");
        reveal_strlit("INPUT");
        reveal_strlit("OUTPUT");
        reveal_strlit("FORWARD");
        reveal_strlit("PREROUTING");
        reveal_strlit("POSTROUTING");
        let c = owned_chains()[q];
        assert(c.builtin == "INPUT"@ || c.builtin == "OUTPUT"@ || c.builtin == "FORWARD"@
            || c.builtin == "PREROUTING"@ || c.builtin == "POSTROUTING"@);
        assert(p[0] == '-');
        assert(p[3] == c.builtin[0]);
        assert(p.len() > 10);
        assert(line[0] == p[0] && line[3] == p[3]);
        assert(t.take(line.len() as int)[0] == t[0]);
        assert(t.take(line.len() as int)[3] == t[3]);
        if starts(t, "-A MBED_"@) {
            assert(t.take(8)[3] == t[3]);
        } else if starts(t, "*"@) {
            assert(t.take(1)[0] == t[0]);
        } else if starts(t, ":MBED_"@) {
            assert(t.take(6)[0] == t[0]);
        } else {
            assert(t.take(7)[0] == t[0]);
        }
    }
}

proof fn lemma_empty_isolated()
    ensures
        is_isolated(false, 0, 0, Seq::empty()),
{
    reveal(is_isolated);
}

/// The rules of the three tables are isolated, and hold no jump from a chain of the system.
proof fn lemma_rules_isolated(c: RenderContextView, family: IpFamily)
    requires
        is_inline_context(c),
        rules_of(c, family) is Ok,
    ensures
        is_isolated(false, 0, 0, rules_of(c, family)->Ok_0.0),
        is_isolated(false, 0, 0, rules_of(c, family)->Ok_0.1),
        is_isolated(false, 0, 0, rules_of(c, family)->Ok_0.2),
{
    lemma_empty_isolated();
    let f = filter_rules(c, family, 0)->Ok_0;
    lemma_all_filtered(false, 0, 0, fresh(0), c, family, 0);
    let d1 = all_filtered(fresh(0), c, family, 0)->Ok_0;
    lemma_forwarded(false, 0, 0, d1, c, 0);
    let d2 = forwarded(d1, c, 0)->Ok_0;
    lemma_policies(false, 0, 0, d2, c.zones, 0);
    let m = mangle_rules(c, f.count)->Ok_0;
    lemma_all_zone_lines(false, 0, 0, fresh(f.count), c.zones, true, 0);
    lemma_translated(false, 0, 0, fresh(m.count), c, family, 0);
    let n1 = translated(fresh(m.count), c, family, 0)->Ok_0;
    lemma_all_zone_lines(false, 0, 0, n1, c.zones, false, 0);
}

proof fn lemma_whole_add(a: Seq<char>, b: Seq<char>)
    requires
        is_whole(a),
        is_whole(b),
    ensures
        is_whole(a + b),
{
    if b.len() > 0 {
        assert((a + b).last() == b.last());
    } else {
        assert(a + b =~= a);
    }
}

/// The lines of one chain: the jump is left out where the chain is owned.
proof fn lemma_head_step(a: Seq<char>, o: Seq<char>, k: int)
    requires
        0 <= k < 6,
        is_whole(a),
        is_whole(o),
        without_jumps(lines(a)) == lines(o),
    ensures
        ({
            let x = declare_line(owned_chains()[k]);
            let y = hook_line(owned_chains()[k]);
            &&& is_whole(a + x + y)
            &&& is_whole(o + x)
            &&& without_jumps(lines(a + x + y)) == lines(o + x)
        }),
{
    let x = declare_line(owned_chains()[k]);
    let y = hook_line(owned_chains()[k]);
    lemma_head_words(k);
    lemma_whole_add(a, x);
    lemma_whole_add(a + x, y);
    lemma_whole_add(o, x);
    lemma_head_lines(true, k);
    lemma_lines_one(x);
    lemma_lines_one(y);
    lemma_lines_append(a, x);
    lemma_lines_append(o, x);
    lemma_lines_append(a + x, y);
    lemma_without_add(lines(a), lines(x));
    lemma_without_add(lines(a + x), lines(y));
    assert(without_jumps(lines(x)) =~= lines(x)) by {
        lemma_without_all(lines(x));
    }
    assert(without_jumps(lines(y)) =~= Seq::empty()) by {
        reveal(Seq::filter);
        assert(lines(y).drop_last() =~= Seq::empty());
        assert(is_jump(lines(y)[0]));
    }
    assert(without_jumps(lines(a + x + y)) =~= lines(o + x));
}

proof fn lemma_heads(a: Seq<char>, o: Seq<char>, table: Seq<char>, k: int)
    requires
        0 <= k,
        is_whole(a),
        is_whole(o),
        without_jumps(lines(a)) == lines(o),
    ensures
        is_whole(headed(a, table, IptablesFamilyState::Absent, k)),
        is_whole(headed(o, table, IptablesFamilyState::AgentOwned, k)),
        without_jumps(lines(headed(a, table, IptablesFamilyState::Absent, k))) == lines(
            headed(o, table, IptablesFamilyState::AgentOwned, k),
        ),
    decreases 6 - k,
{
    if k < 6 {
        let c = owned_chains()[k];
        if c.table != table {
            lemma_heads(a, o, table, k + 1);
        } else {
            lemma_head_step(a, o, k);
            lemma_heads(a + declare_line(c) + hook_line(c), o + declare_line(c), table, k + 1);
        }
    }
}

/// A declaration is no jump, and a jump is one.
proof fn lemma_head_words(k: int)
    requires
        0 <= k < 6,
    ensures
        !is_jump(chomp(declare_line(owned_chains()[k]).drop_last())),
        is_jump(chomp(hook_line(owned_chains()[k]).drop_last())),
        is_whole(declare_line(owned_chains()[k])),
        is_whole(hook_line(owned_chains()[k])),
{
    let c = owned_chains()[k];
    let x = declare_line(c);
    let y = hook_line(c);
    lemma_head_lines(true, k);
    lemma_lines_one(x);
    lemma_lines_one(y);
    reveal_strlit(":");
    reveal_strlit("-A ");
    reveal_strlit("\n");
    reveal_strlit(" - [0:0]\n");
    assert(x[0] == ':');
    assert(x.len() > 9);
    let body = x.drop_last();
    assert(body.last() == x[x.len() - 2]);
    assert(x[x.len() - 2] == ']');
    assert(chomp(body) == body);
    if is_jump(body) {
        let q = choose|q: int| 0 <= q < 6 && body + "\n"@ == #[trigger] hook_line(owned_chains()[q]);
        assert(hook_line(owned_chains()[q])[0] == '-');
        assert((body + "\n"@)[0] == ':');
    }
    reveal_strlit("MBED_INPUT");
    reveal_strlit("MBED_OUTPUT");
    reveal_strlit("MBED_FORWARD");
    reveal_strlit("MBED_PREROUTING");
    reveal_strlit("MBED_POSTROUTING");
    reveal_strlit("MBED_MANGLE_FORWARD");
    let h = y.drop_last();
    assert(c.managed.len() > 0 && c.managed.last() != '\r');
    assert(h.last() == c.managed.last());
    assert(chomp(h) == h);
    assert(h + "\n"@ =~= y);
}

proof fn lemma_table(table: Seq<char>, rules: Seq<char>)
    requires
        table == "filter"@ || table == "mangle"@ || table == "nat"@,
        is_isolated(false, 0, 0, rules),
    ensures
        is_whole(table_of(table, IptablesFamilyState::Absent, rules)),
        is_whole(table_of(table, IptablesFamilyState::AgentOwned, rules)),
        without_jumps(lines(table_of(table, IptablesFamilyState::Absent, rules))) == lines(
            table_of(table, IptablesFamilyState::AgentOwned, rules),
        ),
{
    let first = "*"@ + table + "\n"@;
    reveal_strlit("*");
    reveal_strlit("\n");
    reveal_strlit("filter");
    reveal_strlit("mangle");
    reveal_strlit("nat");
    assert(is_one_line(first)) by {
        lemma_table_line(table);
    }
    lemma_lines_one(first);
    assert(!is_jump(lines(first)[0])) by {
        let body = first.drop_last();
        assert(body.last() == table.last());
        assert(chomp(body) == body);
        if is_jump(body) {
            let q = choose|q: int|
                0 <= q < 6 && body + "\n"@ == #[trigger] hook_line(owned_chains()[q]);
            reveal_strlit("-A ");
            assert(hook_line(owned_chains()[q])[0] == '-');
            assert((body + "\n"@)[0] == '*');
        }
    }
    lemma_without_all(lines(first));
    lemma_heads(first, first, table, 0);
    let a = head(table, IptablesFamilyState::Absent);
    let o = head(table, IptablesFamilyState::AgentOwned);
    assert(is_whole(rules)) by {
        reveal(is_isolated);
    }
    assert forall|i: int| 0 <= i < lines(rules).len() implies !is_jump(#[trigger] lines(rules)[i]) by {
        lemma_isolated_lines(rules, i);
    }
    lemma_without_all(lines(rules));
    lemma_lines_append(a, rules);
    lemma_lines_append(o, rules);
    lemma_without_add(lines(a), lines(rules));
    let end = "COMMIT\n"@;
    lemma_line_ends();
    lemma_lines_one(end);
    reveal_strlit("COMMIT\n");
    assert(!is_jump(lines(end)[0])) by {
        let body = end.drop_last();
        assert(body.last() == 'T');
        assert(chomp(body) == body);
        if is_jump(body) {
            let q = choose|q: int|
                0 <= q < 6 && body + "\n"@ == #[trigger] hook_line(owned_chains()[q]);
            reveal_strlit("-A ");
            assert(hook_line(owned_chains()[q])[0] == '-');
            assert((body + "\n"@)[0] == 'C');
        }
    }
    lemma_without_all(lines(end));
    assert(is_whole(a + rules) && is_whole(o + rules));
    lemma_lines_append(a + rules, end);
    lemma_lines_append(o + rules, end);
    lemma_without_add(lines(a + rules), lines(end));
}

proof fn lemma_assembled(rules: (Seq<char>, Seq<char>, Seq<char>))
    requires
        is_isolated(false, 0, 0, rules.0),
        is_isolated(false, 0, 0, rules.1),
        is_isolated(false, 0, 0, rules.2),
    ensures
        without_jumps(lines(assembled(IptablesFamilyState::Absent, rules))) == lines(
            assembled(IptablesFamilyState::AgentOwned, rules),
        ),
{
    let s = IptablesFamilyState::Absent;
    let t = IptablesFamilyState::AgentOwned;
    lemma_table("filter"@, rules.0);
    lemma_table("mangle"@, rules.1);
    lemma_table("nat"@, rules.2);
    let a1 = table_of("filter"@, s, rules.0);
    let a2 = table_of("mangle"@, s, rules.1);
    let a3 = table_of("nat"@, s, rules.2);
    let o1 = table_of("filter"@, t, rules.0);
    let o2 = table_of("mangle"@, t, rules.1);
    let o3 = table_of("nat"@, t, rules.2);
    lemma_lines_append(a1, a2);
    lemma_lines_append(o1, o2);
    assert(is_whole(a1 + a2) && is_whole(o1 + o2)) by {
        if a2.len() > 0 {
            assert((a1 + a2).last() == a2.last());
        }
        if o2.len() > 0 {
            assert((o1 + o2).last() == o2.last());
        }
        assert(a2.len() == 0 ==> a1 + a2 =~= a1);
        assert(o2.len() == 0 ==> o1 + o2 =~= o1);
    }
    lemma_lines_append(a1 + a2, a3);
    lemma_lines_append(o1 + o2, o3);
    lemma_without_add(lines(a1), lines(a2));
    lemma_without_add(lines(a1 + a2), lines(a3));
}

/// The rules of the three tables that a plan leads to, whatever the state of the chains is.
pub open spec fn planned_rules(
    objects: Seq<FirewallObjectView>,
    valid: Seq<bool>,
    changes: Seq<FirewallPlannedChangeView>,
    family: IpFamily,
) -> (Seq<char>, Seq<char>, Seq<char>) {
    rules_of(
        context_of(empty_context(), projected(objects, valid, changes)->Ok_0, 0)->Some_0,
        family,
    )->Ok_0
}

/// A restore with a text behind the declaration of each of the six chains.
pub open spec fn with_hooks(
    hooks: Seq<Seq<char>>,
    rules: (Seq<char>, Seq<char>, Seq<char>),
) -> Seq<char> {
    let d = |k: int| declare_line(owned_chains()[k]) + hooks[k];
    "*filter\n"@ + d(0) + d(1) + d(2) + rules.0 + "COMMIT\n"@ + "*mangle\n"@ + d(5) + rules.1
        + "COMMIT\n"@ + "*nat\n"@ + d(3) + d(4) + rules.2 + "COMMIT\n"@
}

/// The six jumps to the managed chains.
pub open spec fn jump_lines() -> Seq<Seq<char>> {
    Seq::new(6, |k: int| hook_line(owned_chains()[k]))
}

/// Nothing in the place of the six jumps.
pub open spec fn no_lines() -> Seq<Seq<char>> {
    Seq::new(6, |k: int| Seq::empty())
}

/// What stands behind the declaration of each chain.
pub open spec fn hooks_of(state: IptablesFamilyState) -> Seq<Seq<char>> {
    if state == IptablesFamilyState::Absent {
        jump_lines()
    } else {
        no_lines()
    }
}

proof fn lemma_head_texts(state: IptablesFamilyState)
    ensures
        ({
            let h = hooks_of(state);
            let c = owned_chains();
            &&& head("filter"@, state) == "*filter\n"@ + (declare_line(c[0]) + h[0]) + (declare_line(
                c[1],
            ) + h[1]) + (declare_line(c[2]) + h[2])
            &&& head("mangle"@, state) == "*mangle\n"@ + (declare_line(c[5]) + h[5])
            &&& head("nat"@, state) == "*nat\n"@ + (declare_line(c[3]) + h[3]) + (declare_line(c[4])
                + h[4])
        }),
{
    reveal_with_fuel(headed, 7);
    reveal_strlit("*");
    reveal_strlit("\n");
    reveal_strlit("filter");
    reveal_strlit("mangle");
    reveal_strlit("nat");
    reveal_strlit("*filter\n");
    reveal_strlit("*mangle\n");
    reveal_strlit("*nat\n");
    assert("filter"@[0] == 'f' && "mangle"@[0] == 'm' && "nat"@[0] == 'n');
    assert("*"@ + "filter"@ + "\n"@ =~= "*filter\n"@);
    assert("*"@ + "mangle"@ + "\n"@ =~= "*mangle\n"@);
    assert("*"@ + "nat"@ + "\n"@ =~= "*nat\n"@);
    let h = hooks_of(state);
    let c = owned_chains();
    assert(head("filter"@, state) =~= "*filter\n"@ + (declare_line(c[0]) + h[0]) + (declare_line(
        c[1],
    ) + h[1]) + (declare_line(c[2]) + h[2]));
    assert(head("mangle"@, state) =~= "*mangle\n"@ + (declare_line(c[5]) + h[5]));
    assert(head("nat"@, state) =~= "*nat\n"@ + (declare_line(c[3]) + h[3]) + (declare_line(c[4])
        + h[4]));
}

proof fn lemma_hooked(state: IptablesFamilyState, rules: (Seq<char>, Seq<char>, Seq<char>))
    ensures
        assembled(state, rules) == with_hooks(hooks_of(state), rules),
{
    lemma_head_texts(state);
    let h = hooks_of(state);
    let c = owned_chains();
    let d0 = declare_line(c[0]) + h[0];
    let d1 = declare_line(c[1]) + h[1];
    let d2 = declare_line(c[2]) + h[2];
    let d3 = declare_line(c[3]) + h[3];
    let d4 = declare_line(c[4]) + h[4];
    let d5 = declare_line(c[5]) + h[5];
    let end = "COMMIT\n"@;
    let f = "*filter\n"@ + d0 + d1 + d2 + rules.0 + end;
    let m = "*mangle\n"@ + d5 + rules.1 + end;
    let n = "*nat\n"@ + d3 + d4 + rules.2 + end;
    assert(assembled(state, rules) == f + m + n);
    assert(with_hooks(h, rules) == f + "*mangle\n"@ + d5 + rules.1 + end + "*nat\n"@ + d3 + d4
        + rules.2 + end);
    assert(f + m =~= f + "*mangle\n"@ + d5 + rules.1 + end);
    let g = f + m;
    assert(g + n =~= g + "*nat\n"@ + d3 + d4 + rules.2 + end);
}

/// Whether no name of the objects holds a line break.
pub open spec fn all_inline_objects(objects: Seq<FirewallObjectView>) -> bool {
    forall|j: int| 0 <= j < objects.len() ==> is_inline_object(#[trigger] objects[j])
}

/// A restore is made of the rules that the plan leads to, the same in every state, and of the declarations
/// of the six chains, each with its jump behind it where the chains are absent and with nothing where they
/// are owned.
pub proof fn law_restores_are_hooked_by_state(
    objects: Seq<FirewallObjectView>,
    valid: Seq<bool>,
    changes: Seq<FirewallPlannedChangeView>,
    ipv4: IptablesFamilyState,
    ipv6: IptablesFamilyState,
)
    requires
        iptables_stage(objects, valid, changes, ipv4, ipv6) is Ok,
    ensures
        ({
            let stage = iptables_stage(objects, valid, changes, ipv4, ipv6)->Ok_0;
            &&& stage.ipv4_restore == with_hooks(
                hooks_of(ipv4),
                planned_rules(objects, valid, changes, IpFamily::Ipv4),
            )
            &&& stage.ipv6_restore == with_hooks(
                hooks_of(ipv6),
                planned_rules(objects, valid, changes, IpFamily::Ipv6),
            )
        }),
{
    let c = context_of(empty_context(), projected(objects, valid, changes)->Ok_0, 0)->Some_0;
    lemma_restore_parts(c, IpFamily::Ipv4, ipv4);
    lemma_restore_parts(c, IpFamily::Ipv6, ipv6);
    lemma_hooked(ipv4, planned_rules(objects, valid, changes, IpFamily::Ipv4));
    lemma_hooked(ipv6, planned_rules(objects, valid, changes, IpFamily::Ipv6));
}

/// The restores that are rendered for owned chains are those for absent ones with the six jumps taken
/// out, and nothing else differs. Where no name of the objects holds a line break, the jumps are told from
/// all other lines by what they say.
pub proof fn law_owned_restores_lack_the_jumps_only(
    objects: Seq<FirewallObjectView>,
    valid: Seq<bool>,
    changes: Seq<FirewallPlannedChangeView>,
)
    requires
        iptables_stage(
            objects,
            valid,
            changes,
            IptablesFamilyState::Absent,
            IptablesFamilyState::Absent,
        ) is Ok,
        iptables_stage(
            objects,
            valid,
            changes,
            IptablesFamilyState::AgentOwned,
            IptablesFamilyState::AgentOwned,
        ) is Ok,
    ensures
        ({
            let a = iptables_stage(
                objects,
                valid,
                changes,
                IptablesFamilyState::Absent,
                IptablesFamilyState::Absent,
            )->Ok_0;
            let o = iptables_stage(
                objects,
                valid,
                changes,
                IptablesFamilyState::AgentOwned,
                IptablesFamilyState::AgentOwned,
            )->Ok_0;
            let r4 = planned_rules(objects, valid, changes, IpFamily::Ipv4);
            let r6 = planned_rules(objects, valid, changes, IpFamily::Ipv6);
            &&& a.ipv4_restore == with_hooks(jump_lines(), r4)
            &&& o.ipv4_restore == with_hooks(no_lines(), r4)
            &&& a.ipv6_restore == with_hooks(jump_lines(), r6)
            &&& o.ipv6_restore == with_hooks(no_lines(), r6)
            &&& o.validations == a.validations
            &&& o.activations == a.activations
            &&& o.coexistence == a.coexistence
            &&& o.rollback_required == a.rollback_required
            &&& all_inline_objects(projected(objects, valid, changes)->Ok_0) ==> lines(o.ipv4_restore)
                == without_jumps(lines(a.ipv4_restore)) && lines(o.ipv6_restore) == without_jumps(
                lines(a.ipv6_restore),
            )
        }),
{
    let absent = IptablesFamilyState::Absent;
    let taken = IptablesFamilyState::AgentOwned;
    law_restores_are_hooked_by_state(objects, valid, changes, absent, absent);
    law_restores_are_hooked_by_state(objects, valid, changes, taken, taken);
    let owned = projected(objects, valid, changes)->Ok_0;
    if all_inline_objects(owned) {
        lemma_context(empty_context(), owned, 0);
        let c = context_of(empty_context(), owned, 0)->Some_0;
        lemma_restore_parts(c, IpFamily::Ipv4, absent);
        lemma_restore_parts(c, IpFamily::Ipv6, absent);
        lemma_restore_parts(c, IpFamily::Ipv4, taken);
        lemma_restore_parts(c, IpFamily::Ipv6, taken);
        lemma_rules_isolated(c, IpFamily::Ipv4);
        lemma_rules_isolated(c, IpFamily::Ipv6);
        lemma_assembled(rules_of(c, IpFamily::Ipv4)->Ok_0);
        lemma_assembled(rules_of(c, IpFamily::Ipv6)->Ok_0);
    }
}

} // verus!
