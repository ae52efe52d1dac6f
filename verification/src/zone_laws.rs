//! Which interfaces a rule on zones means, and in which order rules stand.

use vstd::prelude::*;

use crate::firewall_model::{FirewallFilterRuleView, FirewallNatRuleView, FirewallZoneView};
use crate::firewall_zones::{dedup, filter_slot, interfaces_of, nat_slot, zone_from, zone_networks};
use crate::order::{law_text_order, sorted_texts, text_le};
use vstd::seq_lib::group_to_multiset_ensures;

verus! {

/// Whether a zone is the first of its name and enabled.
pub open spec fn names_zone(zones: Seq<FirewallZoneView>, id: Seq<char>, k: int) -> bool {
    &&& 0 <= k < zones.len()
    &&& zones[k].id == id
    &&& zones[k].enabled
    &&& forall|j: int| 0 <= j < k ==> (#[trigger] zones[j]).id != id
}

/// Whether a name is that of an enabled zone.
pub open spec fn is_named(zones: Seq<FirewallZoneView>, id: Seq<char>) -> bool {
    exists|k: int| #[trigger] names_zone(zones, id, k)
}

/// Whether an interface belongs to one of the named zones.
pub open spec fn has_interface(zones: Seq<FirewallZoneView>, ids: Seq<Seq<char>>, x: Seq<char>) -> bool {
    exists|i: int, k: int|
        0 <= i < ids.len() && #[trigger] names_zone(zones, ids[i], k) && zones[k].networks.contains(x)
}

proof fn lemma_zone(zones: Seq<FirewallZoneView>, id: Seq<char>, i: int)
    requires
        0 <= i <= zones.len(),
        forall|j: int| 0 <= j < i ==> (#[trigger] zones[j]).id != id,
    ensures
        match zone_from(zones, id, i) {
            Some(z) => exists|k: int| #[trigger] names_zone(zones, id, k) && zones[k] == z,
            None => forall|k: int| !(#[trigger] names_zone(zones, id, k)),
        },
    decreases zones.len() - i,
{
    if i < zones.len() {
        if zones[i].id == id {
            if zones[i].enabled {
                assert(names_zone(zones, id, i));
            } else {
                assert forall|k: int| !(#[trigger] names_zone(zones, id, k)) by {
                    if names_zone(zones, id, k) && i < k {
                        assert(zones[i].id != id);
                    }
                }
            }
        } else {
            lemma_zone(zones, id, i + 1);
        }
    }
}

/// A zone is found by its name: the first that has it, where it is enabled.
pub proof fn law_zone_is_found_by_name(zones: Seq<FirewallZoneView>, id: Seq<char>)
    ensures
        match zone_from(zones, id, 0) {
            Some(z) => exists|k: int| #[trigger] names_zone(zones, id, k) && zones[k] == z,
            None => forall|k: int| !(#[trigger] names_zone(zones, id, k)),
        },
{
    lemma_zone(zones, id, 0);
}

proof fn lemma_one_zone(zones: Seq<FirewallZoneView>, id: Seq<char>, a: int, b: int)
    requires
        names_zone(zones, id, a),
        names_zone(zones, id, b),
    ensures
        a == b,
{
    if a < b {
        assert(zones[a].id != id);
    }
    if b < a {
        assert(zones[b].id != id);
    }
}

/// Whether an interface belongs to one of the zones that are named from `from` on.
pub open spec fn has_interface_from(
    zones: Seq<FirewallZoneView>,
    ids: Seq<Seq<char>>,
    from: int,
    x: Seq<char>,
) -> bool {
    exists|i: int, k: int|
        from <= i < ids.len() && #[trigger] names_zone(zones, ids[i], k) && zones[k].networks.contains(x)
}

proof fn lemma_networks(
    acc: Seq<Seq<char>>,
    zones: Seq<FirewallZoneView>,
    ids: Seq<Seq<char>>,
    i: int,
    x: Seq<char>,
)
    requires
        0 <= i <= ids.len(),
    ensures
        zone_networks(acc, zones, ids, i) is Some <==> forall|j: int|
            i <= j < ids.len() ==> #[trigger] is_named(zones, ids[j]),
        zone_networks(acc, zones, ids, i) matches Some(v) ==> (v.contains(x) <==> acc.contains(x)
            || has_interface_from(zones, ids, i, x)),
    decreases ids.len() - i,
{
    if i < ids.len() {
        lemma_zone(zones, ids[i], 0);
        match zone_from(zones, ids[i], 0) {
            None => {
                assert(!is_named(zones, ids[i]));
            },
            Some(z) => {
                let k = choose|k: int| #[trigger] names_zone(zones, ids[i], k) && zones[k] == z;
                let next = acc + z.networks;
                assert(is_named(zones, ids[i]));
                lemma_networks(next, zones, ids, i + 1, x);
                assert(next.contains(x) <==> acc.contains(x) || z.networks.contains(x)) by {
                    lemma_sum_contains(acc, z.networks, x);
                }
                if has_interface_from(zones, ids, i, x) {
                    let (p, q) = choose|p: int, q: int|
                        i <= p < ids.len() && #[trigger] names_zone(zones, ids[p], q)
                            && zones[q].networks.contains(x);
                    if p == i {
                        lemma_one_zone(zones, ids[i], k, q);
                    } else {
                        assert(has_interface_from(zones, ids, i + 1, x));
                    }
                }
                if z.networks.contains(x) {
                    assert(has_interface_from(zones, ids, i, x));
                }
            },
        }
    }
}

pub proof fn lemma_sum_contains<A>(a: Seq<A>, b: Seq<A>, x: A)
    ensures
        (a + b).contains(x) <==> a.contains(x) || b.contains(x),
{
    let s = a + b;
    if a.contains(x) {
        let k = choose|k: int| 0 <= k < a.len() && a[k] == x;
        assert(s[k] == x);
    }
    if b.contains(x) {
        let k = choose|k: int| 0 <= k < b.len() && b[k] == x;
        assert(s[a.len() + k] == x);
    }
    if s.contains(x) {
        let k = choose|k: int| 0 <= k < s.len() && s[k] == x;
        if k < a.len() {
            assert(a[k] == x);
        } else {
            assert(b[k - a.len()] == x);
        }
    }
}

/// Whether the texts ascend, each once.
pub open spec fn is_ascending(s: Seq<Seq<char>>) -> bool {
    forall|i: int, j: int| 0 <= i < j < s.len() ==> text_le(#[trigger] s[i], #[trigger] s[j]) && s[i] != s[j]
}

proof fn lemma_dedup(acc: Seq<Seq<char>>, s: Seq<Seq<char>>, i: int, x: Seq<char>)
    requires
        0 <= i <= s.len(),
        is_ascending(acc),
        forall|p: int, q: int| 0 <= p <= q < s.len() ==> text_le(#[trigger] s[p], #[trigger] s[q]),
        forall|p: int, q: int| 0 <= p < acc.len() && i <= q < s.len() ==> text_le(#[trigger] acc[p], #[trigger] s[q]),
    ensures
        is_ascending(dedup(acc, s, i)),
        dedup(acc, s, i).contains(x) <==> acc.contains(x) || exists|k: int|
            i <= k < s.len() && #[trigger] s[k] == x,
    decreases s.len() - i,
{
    law_text_order();
    let r = |a: Seq<char>, b: Seq<char>| text_le(a, b);
    if i < s.len() {
        if acc.len() > 0 && acc.last() == s[i] {
            lemma_dedup(acc, s, i + 1, x);
            assert(acc.contains(s[i]));
            if exists|k: int| i <= k < s.len() && #[trigger] s[k] == x {
                let k = choose|k: int| i <= k < s.len() && #[trigger] s[k] == x;
                assert(k == i || i + 1 <= k);
            }
        } else {
            let next = acc.push(s[i]);
            assert forall|p: int, q: int| 0 <= p < q < next.len() implies text_le(
                #[trigger] next[p],
                #[trigger] next[q],
            ) && next[p] != next[q] by {
                if q < acc.len() {
                    assert(next[p] == acc[p] && next[q] == acc[q]);
                } else {
                    assert(next[p] == acc[p] && next[q] == s[i]);
                    if acc[p] == s[i] {
                        let l = acc.len() - 1;
                        if p < l {
                            assert(text_le(acc[p], acc[l]));
                            assert(text_le(acc[l], s[i]));
                            assert(r(acc[p], acc[l]) && r(acc[l], acc[p]));
                            assert(acc[p] == acc[l]);
                        }
                    }
                }
            }
            assert forall|p: int, q: int| 0 <= p < next.len() && i + 1 <= q < s.len() implies text_le(
                #[trigger] next[p],
                #[trigger] s[q],
            ) by {
                if p < acc.len() {
                    assert(next[p] == acc[p]);
                } else {
                    assert(text_le(s[i], s[q]));
                }
            }
            lemma_dedup(next, s, i + 1, x);
            crate::rule_reading_laws::lemma_push_contains(acc, s[i], x);
            if exists|k: int| i <= k < s.len() && #[trigger] s[k] == x {
                let k = choose|k: int| i <= k < s.len() && #[trigger] s[k] == x;
                assert(k == i || i + 1 <= k);
            }
        }
    }
}

/// The interfaces that a rule on zones means are those of the zones, in order and each once. They are known only
/// where every name is that of an enabled zone.
pub proof fn law_zones_mean_their_interfaces(zones: Seq<FirewallZoneView>, ids: Seq<Seq<char>>, x: Seq<char>)
    ensures
        interfaces_of(zones, ids) is Some <==> forall|j: int|
            0 <= j < ids.len() ==> #[trigger] is_named(zones, ids[j]),
        interfaces_of(zones, ids) matches Some(v) ==> is_ascending(v) && (v.contains(x) <==> has_interface(
            zones,
            ids,
            x,
        )),
{
    broadcast use group_to_multiset_ensures;

    lemma_networks(Seq::empty(), zones, ids, 0, x);
    if let Some(all) = zone_networks(Seq::empty(), zones, ids, 0) {
        law_text_order();
        let r = |a: Seq<char>, b: Seq<char>| text_le(a, b);
        all.lemma_sort_by_ensures(r);
        let s = sorted_texts(all);
        assert(s == all.sort_by(r));
        assert forall|p: int, q: int| 0 <= p <= q < s.len() implies text_le(#[trigger] s[p], #[trigger] s[q]) by {
            if p < q {
                assert(r(s[p], s[q]));
            } else {
                assert(r(s[p], s[p]));
            }
        }
        lemma_dedup(Seq::empty(), s, 0, x);
        assert(s.to_multiset() == all.to_multiset());
        assert(all.to_multiset().count(x) > 0 <==> all.contains(x));
        assert(s.to_multiset().count(x) > 0 <==> s.contains(x));
        if s.contains(x) {
            let k = choose|k: int| 0 <= k < s.len() && s[k] == x;
            assert(s[k] == x);
        }
        assert(has_interface_from(zones, ids, 0, x) == has_interface(zones, ids, x)) by {
            if has_interface(zones, ids, x) {
                let (i, k) = choose|i: int, k: int|
                    0 <= i < ids.len() && #[trigger] names_zone(zones, ids[i], k) && zones[k].networks.contains(x);
                assert(names_zone(zones, ids[i], k));
            }
        }
    }
}

/// Whether filter rules stand in their order: by their number, and by their names where it is the same.
pub open spec fn is_ranked(rules: Seq<FirewallFilterRuleView>) -> bool {
    forall|i: int, j: int|
        0 <= i < j < rules.len() ==> (#[trigger] rules[i]).order < (#[trigger] rules[j]).order || (rules[i].order
            == rules[j].order && text_le(rules[i].id, rules[j].id))
}

/// Whether translation rules stand in their order.
pub open spec fn is_ranked_nat(rules: Seq<FirewallNatRuleView>) -> bool {
    forall|i: int, j: int|
        0 <= i < j < rules.len() ==> (#[trigger] rules[i]).order < (#[trigger] rules[j]).order || (rules[i].order
            == rules[j].order && text_le(rules[i].id, rules[j].id))
}

pub proof fn lemma_slot(rules: Seq<FirewallFilterRuleView>, r: FirewallFilterRuleView, i: int)
    requires
        0 <= i <= rules.len(),
    ensures
        ({
            let k = filter_slot(rules, r, i);
            &&& i <= k <= rules.len()
            &&& forall|j: int|
                i <= j < k ==> (#[trigger] rules[j]).order < r.order || (rules[j].order == r.order && text_le(
                    rules[j].id,
                    r.id,
                ))
            &&& k < rules.len() ==> rules[k].order > r.order || (rules[k].order == r.order && !text_le(
                rules[k].id,
                r.id,
            ))
        }),
    decreases rules.len() - i,
{
    if i < rules.len() {
        lemma_slot(rules, r, i + 1);
    }
}

pub proof fn lemma_nat_slot(rules: Seq<FirewallNatRuleView>, r: FirewallNatRuleView, i: int)
    requires
        0 <= i <= rules.len(),
    ensures
        ({
            let k = nat_slot(rules, r, i);
            &&& i <= k <= rules.len()
            &&& forall|j: int|
                i <= j < k ==> (#[trigger] rules[j]).order < r.order || (rules[j].order == r.order && text_le(
                    rules[j].id,
                    r.id,
                ))
            &&& k < rules.len() ==> rules[k].order > r.order || (rules[k].order == r.order && !text_le(
                rules[k].id,
                r.id,
            ))
        }),
    decreases rules.len() - i,
{
    if i < rules.len() {
        lemma_nat_slot(rules, r, i + 1);
    }
}

/// A filter rule that is put in its place leaves the rules in their order, and all of them are there.
pub proof fn law_filter_rules_stand_in_order(rules: Seq<FirewallFilterRuleView>, r: FirewallFilterRuleView)
    requires
        is_ranked(rules),
    ensures
        ({
            let next = rules.insert(filter_slot(rules, r, 0), r);
            &&& is_ranked(next)
            &&& next.len() == rules.len() + 1
            &&& next.to_multiset() == rules.to_multiset().insert(r)
        }),
{
    lemma_slot(rules, r, 0);
    law_text_order();
    let f = |a: Seq<char>, b: Seq<char>| text_le(a, b);
    let k = filter_slot(rules, r, 0);
    let next = rules.insert(k, r);
    crate::order::lemma_insert_multiset(rules, k, r);
    assert forall|i: int, j: int| 0 <= i < j < next.len() implies (#[trigger] next[i]).order < (
    #[trigger] next[j]).order || (next[i].order == next[j].order && text_le(next[i].id, next[j].id)) by {
        if j == k {
            assert(next[i] == rules[i]);
        } else if i == k {
            assert(next[j] == rules[j - 1]);
            if j - 1 > k {
                assert(rules[k].order <= rules[j - 1].order);
            }
            if r.order == rules[j - 1].order {
                assert(f(r.id, rules[k].id) || f(rules[k].id, r.id));
                if j - 1 > k {
                    assert(text_le(rules[k].id, rules[j - 1].id));
                    assert(f(r.id, rules[k].id) && f(rules[k].id, rules[j - 1].id));
                    assert(f(r.id, rules[j - 1].id));
                }
            }
        } else if i < k && j > k {
            assert(next[i] == rules[i] && next[j] == rules[j - 1]);
        } else if i > k {
            assert(next[i] == rules[i - 1] && next[j] == rules[j - 1]);
        } else {
            assert(next[i] == rules[i] && next[j] == rules[j]);
        }
    }
}

/// A translation rule that is put in its place leaves the rules in their order, and all of them are there.
pub proof fn law_nat_rules_stand_in_order(rules: Seq<FirewallNatRuleView>, r: FirewallNatRuleView)
    requires
        is_ranked_nat(rules),
    ensures
        ({
            let next = rules.insert(nat_slot(rules, r, 0), r);
            &&& is_ranked_nat(next)
            &&& next.len() == rules.len() + 1
            &&& next.to_multiset() == rules.to_multiset().insert(r)
        }),
{
    lemma_nat_slot(rules, r, 0);
    law_text_order();
    let f = |a: Seq<char>, b: Seq<char>| text_le(a, b);
    let k = nat_slot(rules, r, 0);
    let next = rules.insert(k, r);
    crate::order::lemma_insert_multiset(rules, k, r);
    assert forall|i: int, j: int| 0 <= i < j < next.len() implies (#[trigger] next[i]).order < (
    #[trigger] next[j]).order || (next[i].order == next[j].order && text_le(next[i].id, next[j].id)) by {
        if j == k {
            assert(next[i] == rules[i]);
        } else if i == k {
            assert(next[j] == rules[j - 1]);
            if j - 1 > k {
                assert(rules[k].order <= rules[j - 1].order);
            }
            if r.order == rules[j - 1].order {
                assert(f(r.id, rules[k].id) || f(rules[k].id, r.id));
                if j - 1 > k {
                    assert(text_le(rules[k].id, rules[j - 1].id));
                    assert(f(r.id, rules[k].id) && f(rules[k].id, rules[j - 1].id));
                    assert(f(r.id, rules[j - 1].id));
                }
            }
        } else if i < k && j > k {
            assert(next[i] == rules[i] && next[j] == rules[j - 1]);
        } else if i > k {
            assert(next[i] == rules[i - 1] && next[j] == rules[j - 1]);
        } else {
            assert(next[i] == rules[i] && next[j] == rules[j]);
        }
    }
}

} // verus!
