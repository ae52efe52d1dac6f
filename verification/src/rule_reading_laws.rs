//! What is read of the kernel's policy rules and of the agent's own routes and rules.

use vstd::prelude::*;

use crate::change::ObjectOwnership;
use crate::json::JsonView;
use crate::net::{network_format, network_value, IpNetwork};
use crate::net_laws::{law_network_round_trips, lemma_find_at};
use crate::network_model::{
    NetworkFamily, NetworkObjectView, NetworkPolicyAction, NetworkPolicyRuleView, NetworkRouteView,
};
use crate::network_runtime::{
    digest_name, fwmark_value, has_known_fields, is_name, is_owned_route, mark_value, native_rules,
    owned_routes_from, owned_rules_from, route_value, rule_at, rule_fields, rule_family, rule_network,
    rule_value, word_value, RuleAnswerView, RuntimeNetworkInventoryError,
};
use crate::number_laws::{law_hex_round_trips, law_sized_numbers_round_trip, lemma_hex};
use crate::runtime_reading_laws::{is_marked_route, lemma_marked, shown_text};
use crate::text::{decimal, hex, is_hex, split_once, starts};

verus! {

/// Whether a value shows a number: as one or as a text.
pub open spec fn shows_number(v: Option<JsonView>, n: u32) -> bool {
    v == Some(JsonView::Number(Some(n as u64))) || v == Some(JsonView::Text(decimal(n as nat)))
}

/// The value under the first of two names, or else under the second.
pub open spec fn under(v: JsonView, first: Seq<char>, second: Seq<char>, x: Option<JsonView>) -> bool {
    ||| v.field(first) == x && x is Some
    ||| v.field(first) is None && v.field(second) == x
}

/// Whether a record shows a network under one of two names: by its text, and none by the word for all or by
/// nothing.
pub open spec fn shows_network(v: JsonView, first: Seq<char>, second: Seq<char>, n: Option<IpNetwork>) -> bool {
    match n {
        Some(x) => under(v, first, second, Some(JsonView::Text(network_format(x)))),
        None => under(v, first, second, None) || under(v, first, second, Some(JsonView::Text("all"@))),
    }
}

/// Whether an address, where there is one, is of a family.
pub open spec fn belongs(n: Option<IpNetwork>, family: NetworkFamily) -> bool {
    n matches Some(x) ==> match family {
        NetworkFamily::Ipv4 => x.address is V4,
        NetworkFamily::Ipv6 => x.address is V6,
    }
}

/// Whether a record shows the family of a rule: by one of two words, or by the networks of the rule.
pub open spec fn shows_family(v: JsonView, r: NetworkPolicyRuleView) -> bool {
    &&& belongs(r.source, r.family)
    &&& belongs(r.destination, r.family)
    &&& match r.family {
        NetworkFamily::Ipv4 => v.field("family"@) == Some(JsonView::Text("inet"@)) || v.field("family"@)
            == Some(JsonView::Text("ipv4"@)) || v.field("family"@) is None && (r.source is Some || r.destination
            is Some),
        NetworkFamily::Ipv6 => v.field("family"@) == Some(JsonView::Text("inet6"@)) || v.field("family"@)
            == Some(JsonView::Text("ipv6"@)) || v.field("family"@) is None && (r.source is Some || r.destination
            is Some),
    }
}

/// Whether a record shows the action of a rule.
pub open spec fn shows_action(v: JsonView, a: NetworkPolicyAction) -> bool {
    match a {
        NetworkPolicyAction::Lookup => v.field("action"@) is None || v.field("action"@) == Some(
            JsonView::Text("lookup"@),
        ) || v.field("action"@) == Some(JsonView::Text("to_tbl"@)),
        NetworkPolicyAction::Blackhole => v.field("action"@) == Some(JsonView::Text("blackhole"@)),
        NetworkPolicyAction::Unreachable => v.field("action"@) == Some(JsonView::Text("unreachable"@)),
        NetworkPolicyAction::Prohibit => v.field("action"@) == Some(JsonView::Text("prohibit"@)),
    }
}

/// Whether a text is a mark: its hexadecimal text, with or without the prefix for one.
pub open spec fn is_mark(s: Seq<char>, m: u32) -> bool {
    s == hex(m as nat) || s == "0x"@ + hex(m as nat)
}

/// Whether a record shows the mark of a rule, with the mask behind a slash.
pub open spec fn shows_mark(v: Option<JsonView>, mark: Option<u32>, mask: Option<u32>) -> bool {
    match (mark, mask) {
        (None, None) => v is None,
        (Some(m), None) => v matches Some(JsonView::Text(s)) && is_mark(s, m),
        (Some(m), Some(k)) => v matches Some(JsonView::Text(s)) && exists|a: Seq<char>, b: Seq<char>|
            s == #[trigger] slashed(a, b) && is_mark(a, m) && is_mark(b, k),
        (None, Some(_)) => false,
    }
}

/// Two texts with a slash between them.
pub open spec fn slashed(a: Seq<char>, b: Seq<char>) -> Seq<char> {
    a + seq!['/'] + b
}

/// Whether a name is one of those that the record of a rule may have.
pub open spec fn is_rule_field(s: Seq<char>) -> bool {
    s == "priority"@ || s == "pref"@ || s == "src"@ || s == "from"@ || s == "dst"@ || s == "to"@ || s
        == "iifname"@ || s == "oifname"@ || s == "fwmark"@ || s == "table"@ || s == "action"@ || s == "family"@
}

/// Whether a record is an object that has no fields but those of a rule.
pub open spec fn is_plain_rule(v: JsonView) -> bool {
    v matches JsonView::Object(fields) && forall|i: int|
        0 <= i < fields.len() ==> is_rule_field((#[trigger] fields[i]).name)
}

/// Whether a record of the kernel shows a policy rule.
pub open spec fn shows_rule(v: JsonView, r: NetworkPolicyRuleView) -> bool {
    &&& is_plain_rule(v)
    &&& exists|p: Option<JsonView>| #[trigger] under(v, "priority"@, "pref"@, p) && shows_number(p, r.priority)
    &&& shows_network(v, "src"@, "from"@, r.source)
    &&& shows_network(v, "dst"@, "to"@, r.destination)
    &&& shows_family(v, r)
    &&& shows_action(v, r.action)
    &&& shows_number(v.field("table"@), r.table) || v.field("table"@) is None && r.table == 254
    &&& shows_mark(v.field("fwmark"@), r.fwmark, r.fwmark_mask)
    &&& v.field("iifname"@) == shown_text(r.input_interface)
    &&& v.field("oifname"@) == shown_text(r.output_interface)
    &&& r.input_interface matches Some(s) ==> is_name(s)
    &&& r.output_interface matches Some(s) ==> is_name(s)
}

/// Whether two rules are the same but for their identities and owners.
pub open spec fn is_same_rule(a: NetworkPolicyRuleView, b: NetworkPolicyRuleView) -> bool {
    &&& a.family == b.family
    &&& a.priority == b.priority
    &&& a.source == b.source
    &&& a.destination == b.destination
    &&& a.input_interface == b.input_interface
    &&& a.output_interface == b.output_interface
    &&& a.fwmark == b.fwmark
    &&& a.fwmark_mask == b.fwmark_mask
    &&& a.table == b.table
    &&& a.action == b.action
}

proof fn lemma_rule_texts()
    ensures
        network_value("all"@) is None,
        "inet"@ != "inet6"@,
        "inet"@ != "ipv6"@,
        "ipv4"@ != "inet6"@,
        "ipv4"@ != "ipv6"@,
        "lookup"@ != "blackhole"@,
        "to_tbl"@ != "blackhole"@,
        "lookup"@ != "unreachable"@,
        "to_tbl"@ != "unreachable"@,
        "lookup"@ != "prohibit"@,
        "to_tbl"@ != "prohibit"@,
        "blackhole"@ != "unreachable"@,
        "blackhole"@ != "prohibit"@,
        "unreachable"@ != "prohibit"@,
{
    reveal_strlit("all");
    reveal_strlit("inet");
    reveal_strlit("inet6");
    reveal_strlit("ipv4");
    reveal_strlit("ipv6");
    reveal_strlit("lookup");
    reveal_strlit("to_tbl");
    reveal_strlit("blackhole");
    reveal_strlit("unreachable");
    reveal_strlit("prohibit");
    assert("all"@.len() == 3 && "inet"@.len() == 4 && "inet6"@.len() == 5 && "ipv4"@.len() == 4
        && "ipv6"@.len() == 4);
    assert("inet"@[1] == 'n' && "ipv6"@[1] == 'p' && "ipv4"@[3] == '4' && "ipv6"@[3] == '6');
    assert("lookup"@.len() == 6 && "to_tbl"@.len() == 6 && "blackhole"@.len() == 9 && "unreachable"@.len() == 11
        && "prohibit"@.len() == 8);
    crate::text::lemma_find_from("all"@, '/', 0);
}

proof fn lemma_mark(s: Seq<char>, m: u32)
    requires
        is_mark(s, m),
    ensures
        mark_value(s) == Some(m),
        s.len() > 0,
        forall|i: int| 0 <= i < s.len() ==> #[trigger] s[i] != '/',
{
    reveal_strlit("0x");
    let h = hex(m as nat);
    lemma_hex(m as nat);
    law_hex_round_trips(m as nat, u32::MAX as nat);
    assert("0x"@.len() == 2 && "0x"@[0] == '0' && "0x"@[1] == 'x');
    assert forall|i: int| 0 <= i < h.len() implies #[trigger] h[i] != '/' && h[i] != 'x' by {
        assert(is_hex(h[i]));
    }
    if s == h {
        if starts(s, "0x"@) {
            assert(s.take(2)[1] == "0x"@[1]);
            assert(s[1] == 'x');
        }
    } else {
        assert(s.take(2) =~= "0x"@);
        assert(s.skip(2) =~= h);
        assert forall|i: int| 0 <= i < s.len() implies #[trigger] s[i] != '/' by {
            if i >= 2 {
                assert(s[i] == h[i - 2]);
            }
        }
    }
}

proof fn lemma_marks(v: Option<JsonView>, mark: Option<u32>, mask: Option<u32>)
    requires
        shows_mark(v, mark, mask),
    ensures
        fwmark_value(v) == Some((mark, mask)),
{
    if let Some(JsonView::Text(s)) = v {
        let m = mark->Some_0;
        match mask {
            None => {
                lemma_mark(s, m);
                crate::text::lemma_find_from(s, '/', 0);
                assert(split_once(s, '/') is None);
            },
            Some(k) => {
                let (a, b) = choose|a: Seq<char>, b: Seq<char>|
                    s == #[trigger] slashed(a, b) && is_mark(a, m) && is_mark(b, k);
                lemma_mark(a, m);
                lemma_mark(b, k);
                assert forall|j: int| 0 <= j < a.len() implies s[j] != '/' by {
                    assert(s[j] == a[j]);
                }
                assert(s[a.len() as int] == '/');
                lemma_find_at(s, '/', 0, a.len() as int);
                assert(s.take(a.len() as int) =~= a);
                assert(s.skip(a.len() as int + 1) =~= b);
            },
        }
    }
}

proof fn lemma_known(v: JsonView)
    ensures
        has_known_fields(v) == is_plain_rule(v),
{
    assert forall|s: Seq<char>| #[trigger] rule_fields().contains(s) == is_rule_field(s) by {
        let f = rule_fields();
        assert(f.len() == 12);
        assert(f[0] == "priority"@ && f[1] == "pref"@ && f[2] == "src"@ && f[3] == "from"@ && f[4] == "dst"@
            && f[5] == "to"@ && f[6] == "iifname"@ && f[7] == "oifname"@ && f[8] == "fwmark"@ && f[9]
            == "table"@ && f[10] == "action"@ && f[11] == "family"@);
        if f.contains(s) {
            let i = choose|i: int| 0 <= i < f.len() && f[i] == s;
            assert(i == 0 || i == 1 || i == 2 || i == 3 || i == 4 || i == 5 || i == 6 || i == 7 || i == 8 || i
                == 9 || i == 10 || i == 11);
        }
    }
}

/// A policy rule that the kernel shows is read as that rule, enabled, and it is the agent's where its priority
/// is one of the reserved ones.
pub proof fn law_shown_rule_is_read(v: JsonView, r: NetworkPolicyRuleView)
    requires
        shows_rule(v, r),
    ensures
        rule_value(v) matches Ok(Some(x)) && is_same_rule(x, r) && x.enabled && x.ownership == (if 32000
            <= r.priority <= 32063 {
            ObjectOwnership::AgentOwned
        } else {
            ObjectOwnership::PlatformNative
        }),
{
    lemma_rule_texts();
    lemma_known(v);
    law_sized_numbers_round_trip(0, 0, r.priority);
    law_sized_numbers_round_trip(0, 0, r.table);
    if let Some(n) = r.source {
        law_network_round_trips(n);
    }
    if let Some(n) = r.destination {
        law_network_round_trips(n);
    }
    lemma_marks(v.field("fwmark"@), r.fwmark, r.fwmark_mask);
    let p = choose|p: Option<JsonView>| #[trigger]
        under(v, "priority"@, "pref"@, p) && shows_number(p, r.priority);
    assert(word_value(p->Some_0) == Some(r.priority));
    let src = crate::network_runtime::either_field(v, "src"@, "from"@);
    let dst = crate::network_runtime::either_field(v, "dst"@, "to"@);
    assert(rule_network(src) == Ok::<Option<IpNetwork>, RuntimeNetworkInventoryError>(r.source));
    assert(rule_network(dst) == Ok::<Option<IpNetwork>, RuntimeNetworkInventoryError>(r.destination));
    assert(rule_family(v.text_at("family"@), r.source, r.destination) == Ok::<
        Option<NetworkFamily>,
        RuntimeNetworkInventoryError,
    >(Some(r.family)));
}

/// A record with a reserved priority that is no plain rule is refused, one with another priority is left out,
/// and one without a priority makes the document malformed.
pub proof fn law_other_rules_are_refused(v: JsonView, priority: u32)
    requires
        !is_plain_rule(v),
    ensures
        (exists|p: Option<JsonView>| #[trigger] under(v, "priority"@, "pref"@, p) && shows_number(p, priority))
            ==> (if 32000 <= priority <= 32063 {
            rule_value(v) == Err::<Option<NetworkPolicyRuleView>, RuntimeNetworkInventoryError>(
                RuntimeNetworkInventoryError::Unsupported,
            )
        } else {
            rule_value(v) == Ok::<Option<NetworkPolicyRuleView>, RuntimeNetworkInventoryError>(None)
        }),
        v.field("priority"@) is None && v.field("pref"@) is None ==> rule_value(v) == Err::<
            Option<NetworkPolicyRuleView>,
            RuntimeNetworkInventoryError,
        >(RuntimeNetworkInventoryError::Malformed),
{
    lemma_known(v);
    law_sized_numbers_round_trip(0, 0, priority);
}

pub proof fn lemma_push_contains<A>(s: Seq<A>, a: A, x: A)
    ensures
        s.push(a).contains(x) <==> s.contains(x) || x == a,
{
    let p = s.push(a);
    assert(p[s.len() as int] == a);
    if s.contains(x) {
        let k = choose|k: int| 0 <= k < s.len() && s[k] == x;
        assert(p[k] == x);
    }
    if p.contains(x) && x != a {
        let k = choose|k: int| 0 <= k < p.len() && p[k] == x;
        assert(s[k] == x);
    }
}

/// Whether a record of a list is the rule that an object holds.
pub open spec fn is_rule_of(
    values: Seq<JsonView>,
    answers: Seq<RuleAnswerView>,
    i: int,
    o: NetworkObjectView,
) -> bool {
    0 <= i < values.len() && (rule_value(values[i]) matches Ok(Some(r)) && i < answers.len() && answers[i].valid
        && (o matches NetworkObjectView::PolicyRule(x) && is_same_rule(x, r) && x.ownership == r.ownership
        && x.enabled == r.enabled && digest_name("kernel-rule-"@, answers[i].encoding) == Some(x.id)))
}

proof fn lemma_native(
    objects: Seq<NetworkObjectView>,
    values: Seq<JsonView>,
    answers: Seq<RuleAnswerView>,
    i: int,
    o: NetworkObjectView,
)
    requires
        0 <= i,
        native_rules(objects, values, answers, i) is Ok,
    ensures
        native_rules(objects, values, answers, i)->Ok_0.contains(o) <==> objects.contains(o) || exists|k: int|
            i <= k && #[trigger] is_rule_of(values, answers, k, o) && o.ownership()
                == ObjectOwnership::PlatformNative,
    decreases values.len() - i,
{
    if i < values.len() {
        match rule_at(values, answers, i) {
            Ok(Some(rule)) => {
                let x = NetworkObjectView::PolicyRule(rule);
                assert(is_rule_of(values, answers, i, x));
                if rule.ownership == ObjectOwnership::AgentOwned {
                    lemma_native(objects, values, answers, i + 1, o);
                } else {
                    lemma_native(objects.push(x), values, answers, i + 1, o);
                    lemma_push_contains(objects, x, o);
                }
                assert(is_rule_of(values, answers, i, o) ==> o == x);
            },
            Ok(None) => {
                lemma_native(objects, values, answers, i + 1, o);
            },
            Err(_) => {},
        }
        if exists|k: int|
            i <= k && #[trigger] is_rule_of(values, answers, k, o) && o.ownership()
                == ObjectOwnership::PlatformNative {
            let k = choose|k: int|
                i <= k && #[trigger] is_rule_of(values, answers, k, o) && o.ownership()
                    == ObjectOwnership::PlatformNative;
            assert(k == i || i + 1 <= k);
        }
    }
}

proof fn lemma_owned(
    objects: Seq<NetworkObjectView>,
    values: Seq<JsonView>,
    answers: Seq<RuleAnswerView>,
    i: int,
    o: NetworkObjectView,
)
    requires
        0 <= i,
        owned_rules_from(objects, values, answers, i) is Ok,
    ensures
        owned_rules_from(objects, values, answers, i)->Ok_0.contains(o) <==> objects.contains(o) || exists|k: int|
            i <= k && #[trigger] is_rule_of(values, answers, k, o) && o.ownership()
                == ObjectOwnership::AgentOwned,
    decreases values.len() - i,
{
    if i < values.len() {
        match rule_at(values, answers, i) {
            Ok(Some(rule)) => {
                let x = NetworkObjectView::PolicyRule(rule);
                assert(is_rule_of(values, answers, i, x));
                if rule.ownership == ObjectOwnership::AgentOwned {
                    lemma_owned(objects.push(x), values, answers, i + 1, o);
                    lemma_push_contains(objects, x, o);
                } else {
                    lemma_owned(objects, values, answers, i + 1, o);
                }
                assert(is_rule_of(values, answers, i, o) ==> o == x);
            },
            Ok(None) => {
                lemma_owned(objects, values, answers, i + 1, o);
            },
            Err(_) => {},
        }
        if exists|k: int|
            i <= k && #[trigger] is_rule_of(values, answers, k, o) && o.ownership()
                == ObjectOwnership::AgentOwned {
            let k = choose|k: int|
                i <= k && #[trigger] is_rule_of(values, answers, k, o) && o.ownership()
                    == ObjectOwnership::AgentOwned;
            assert(k == i || i + 1 <= k);
        }
    }
}

/// Each rule that the kernel shows is either the platform's or the agent's: the inventory of the platform's
/// rules and the list of the agent's hold exactly the rules that the records show, parted by their owner.
pub proof fn law_rules_are_parted_by_owner(
    values: Seq<JsonView>,
    answers: Seq<RuleAnswerView>,
    o: NetworkObjectView,
)
    requires
        native_rules(Seq::empty(), values, answers, 0) is Ok,
        owned_rules_from(Seq::empty(), values, answers, 0) is Ok,
    ensures
        native_rules(Seq::empty(), values, answers, 0)->Ok_0.contains(o) <==> exists|k: int|
            0 <= k && #[trigger] is_rule_of(values, answers, k, o) && o.ownership()
                == ObjectOwnership::PlatformNative,
        owned_rules_from(Seq::empty(), values, answers, 0)->Ok_0.contains(o) <==> exists|k: int|
            0 <= k && #[trigger] is_rule_of(values, answers, k, o) && o.ownership()
                == ObjectOwnership::AgentOwned,
{
    lemma_native(Seq::empty(), values, answers, 0, o);
    lemma_owned(Seq::empty(), values, answers, 0, o);
}

/// Whether a record of a list is the agent's and shows the route that an object holds.
pub open spec fn is_route_of(values: Seq<JsonView>, i: int, o: NetworkObjectView) -> bool {
    0 <= i < values.len() && is_marked_route(values[i]) && (route_value(values[i]) matches Ok(Some(r)) && (
    o matches NetworkObjectView::Route(x) && x.ownership == ObjectOwnership::AgentOwned && x.id == r.id
        && x.enabled == r.enabled && crate::runtime_reading_laws::is_same_but_identity(x, r)))
}

proof fn lemma_owned_routes(objects: Seq<NetworkObjectView>, values: Seq<JsonView>, i: int, o: NetworkObjectView)
    requires
        0 <= i,
        owned_routes_from(objects, values, i) is Ok,
    ensures
        owned_routes_from(objects, values, i)->Ok_0.contains(o) <==> objects.contains(o) || exists|k: int|
            i <= k && #[trigger] is_route_of(values, k, o),
    decreases values.len() - i,
{
    if i < values.len() {
        lemma_marked(values[i]);
        if !is_owned_route(values[i]) {
            lemma_owned_routes(objects, values, i + 1, o);
        } else {
            match route_value(values[i]) {
                Ok(Some(route)) => {
                    let x = NetworkObjectView::Route(
                        NetworkRouteView { ownership: ObjectOwnership::AgentOwned, ..route },
                    );
                    assert(is_route_of(values, i, x));
                    lemma_owned_routes(objects.push(x), values, i + 1, o);
                    lemma_push_contains(objects, x, o);
                    assert(is_route_of(values, i, o) ==> o == x);
                },
                _ => {},
            }
        }
        if exists|k: int| i <= k && #[trigger] is_route_of(values, k, o) {
            let k = choose|k: int| i <= k && #[trigger] is_route_of(values, k, o);
            assert(k == i || i + 1 <= k);
        }
    }
}

/// The agent's routes are those that carry its protocol, each as the record shows it.
pub proof fn law_owned_routes_carry_the_protocol(values: Seq<JsonView>, o: NetworkObjectView)
    requires
        owned_routes_from(Seq::empty(), values, 0) is Ok,
    ensures
        owned_routes_from(Seq::empty(), values, 0)->Ok_0.contains(o) <==> exists|k: int|
            0 <= k && #[trigger] is_route_of(values, k, o),
{
    lemma_owned_routes(Seq::empty(), values, 0, o);
}

} // verus!
