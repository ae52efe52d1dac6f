//! Zones by name, and rules by their order.

use vstd::prelude::*;

use crate::firewall_model::{
    FirewallFilterRule, FirewallFilterRuleView, FirewallNatRule, FirewallNatRuleView, FirewallZone, FirewallZoneView,
};
use crate::items::Item;
use crate::order::{sort_texts, sorted_texts, text_at_most, text_le};
use crate::parse::olist;
use crate::text::same;
use crate::views::{group_views, views};

verus! {

broadcast use group_views;

/// Whether a rule of an order and a name stands before another or is the same.
pub open spec fn rank_le(ao: u32, ai: Seq<char>, bo: u32, bi: Seq<char>) -> bool {
    ao < bo || (ao == bo && text_le(ai, bi))
}

/// The least index from `i` on of a filter rule that stands behind an order and a name.
pub open spec fn filter_slot(
    rules: Seq<FirewallFilterRuleView>,
    r: FirewallFilterRuleView,
    i: int,
) -> int
    decreases rules.len() - i,
{
    if i < 0 || i >= rules.len() {
        rules.len() as int
    } else if !rank_le(rules[i].order, rules[i].id, r.order, r.id) {
        i
    } else {
        filter_slot(rules, r, i + 1)
    }
}

/// The least index from `i` on of a translation rule that stands behind an order and a name.
pub open spec fn nat_slot(rules: Seq<FirewallNatRuleView>, r: FirewallNatRuleView, i: int) -> int
    decreases rules.len() - i,
{
    if i < 0 || i >= rules.len() {
        rules.len() as int
    } else if !rank_le(rules[i].order, rules[i].id, r.order, r.id) {
        i
    } else {
        nat_slot(rules, r, i + 1)
    }
}

/// The enabled zone of a name from `i` on.
pub open spec fn zone_from(zones: Seq<FirewallZoneView>, id: Seq<char>, i: int) -> Option<
    FirewallZoneView,
>
    decreases zones.len() - i,
{
    if i < 0 || i >= zones.len() {
        None
    } else if zones[i].id == id {
        if zones[i].enabled {
            Some(zones[i])
        } else {
            None
        }
    } else {
        zone_from(zones, id, i + 1)
    }
}

/// The networks of the zones from `i` on, behind `acc`.
pub open spec fn zone_networks(
    acc: Seq<Seq<char>>,
    zones: Seq<FirewallZoneView>,
    ids: Seq<Seq<char>>,
    i: int,
) -> Option<Seq<Seq<char>>>
    decreases ids.len() - i,
{
    if i < 0 || i >= ids.len() {
        Some(acc)
    } else {
        match zone_from(zones, ids[i], 0) {
            None => None,
            Some(z) => zone_networks(acc + z.networks, zones, ids, i + 1),
        }
    }
}

/// A list with each run of equal texts from `i` on cut to one, behind `acc`.
pub open spec fn dedup(acc: Seq<Seq<char>>, s: Seq<Seq<char>>, i: int) -> Seq<Seq<char>>
    decreases s.len() - i,
{
    if i < 0 || i >= s.len() {
        acc
    } else if acc.len() > 0 && acc.last() == s[i] {
        dedup(acc, s, i + 1)
    } else {
        dedup(acc.push(s[i]), s, i + 1)
    }
}

/// The interfaces of some zones, in order, each once.
pub open spec fn interfaces_of(zones: Seq<FirewallZoneView>, ids: Seq<Seq<char>>) -> Option<
    Seq<Seq<char>>,
> {
    match zone_networks(Seq::empty(), zones, ids, 0) {
        None => None,
        Some(all) => Some(dedup(Seq::empty(), sorted_texts(all), 0)),
    }
}

fn rank_at_most(ao: u32, ai: &str, bo: u32, bi: &str) -> (r: bool)
    ensures
        r == rank_le(ao, ai@, bo, bi@),
{
    ao < bo || (ao == bo && text_at_most(ai, bi))
}

/// Puts a filter rule in its place.
pub fn insert_filter_rule(rules: &mut Vec<FirewallFilterRule>, rule: &FirewallFilterRule)
    ensures
        views(final(rules)@) == views(old(rules)@).insert(
            filter_slot(views(old(rules)@), rule@, 0),
            rule@,
        ),
{
    let ghost before = views(rules@);
    let mut i: usize = 0;
    while i < rules.len() && rank_at_most(
        rules[i].order,
        rules[i].id.as_str(),
        rule.order,
        rule.id.as_str(),
    )
        invariant
            i <= rules@.len(),
            before == views(rules@),
            before == views(old(rules)@),
            filter_slot(before, rule@, i as int) == filter_slot(before, rule@, 0),
        decreases rules@.len() - i,
    {
        i = i + 1;
    }
    rules.insert(i, rule.twin());
    assert(views(rules@) =~= before.insert(i as int, rule@));
}

/// Puts a translation rule in its place.
pub fn insert_nat_rule(rules: &mut Vec<FirewallNatRule>, rule: &FirewallNatRule)
    ensures
        views(final(rules)@) == views(old(rules)@).insert(
            nat_slot(views(old(rules)@), rule@, 0),
            rule@,
        ),
{
    let ghost before = views(rules@);
    let mut i: usize = 0;
    while i < rules.len() && rank_at_most(
        rules[i].order,
        rules[i].id.as_str(),
        rule.order,
        rule.id.as_str(),
    )
        invariant
            i <= rules@.len(),
            before == views(rules@),
            before == views(old(rules)@),
            nat_slot(before, rule@, i as int) == nat_slot(before, rule@, 0),
        decreases rules@.len() - i,
    {
        i = i + 1;
    }
    rules.insert(i, rule.twin());
    assert(views(rules@) =~= before.insert(i as int, rule@));
}

/// The enabled zone of a name.
pub fn find_zone<'a>(zones: &'a Vec<FirewallZone>, id: &str) -> (r: Option<&'a FirewallZone>)
    ensures
        match r {
            Some(z) => zone_from(views(zones@), id@, 0) == Some(z@),
            None => zone_from(views(zones@), id@, 0) is None,
        },
{
    let mut i: usize = 0;
    while i < zones.len()
        invariant
            i <= zones@.len(),
            zone_from(views(zones@), id@, i as int) == zone_from(views(zones@), id@, 0),
        decreases zones@.len() - i,
    {
        assert(views(zones@)[i as int] == zones@[i as int]@);
        if same(zones[i].id.as_str(), id) {
            if zones[i].enabled {
                return Some(&zones[i]);
            }
            return None;
        }
        i = i + 1;
    }
    None
}

/// The interfaces of some zones, in order, each once.
pub fn zone_interfaces(zones: &Vec<FirewallZone>, ids: &Vec<String>) -> (r: Option<Vec<String>>)
    ensures
        olist(r) == interfaces_of(views(zones@), views(ids@)),
{
    let mut all: Vec<String> = Vec::new();
    let mut i: usize = 0;
    while i < ids.len()
        invariant
            i <= ids@.len(),
            zone_networks(views(all@), views(zones@), views(ids@), i as int) == zone_networks(
                Seq::empty(),
                views(zones@),
                views(ids@),
                0,
            ),
        decreases ids@.len() - i,
    {
        assert(views(ids@)[i as int] == ids@[i as int]@);
        match find_zone(zones, ids[i].as_str()) {
            None => {
                return None;
            },
            Some(z) => {
                let ghost before = views(all@);
                let ghost more = z@.networks;
                let mut j: usize = 0;
                while j < z.networks.len()
                    invariant
                        j <= z.networks@.len(),
                        more == views(z.networks@),
                        views(all@) =~= before + more.take(j as int),
                    decreases z.networks@.len() - j,
                {
                    all.push(z.networks[j].clone());
                    j = j + 1;
                }
                assert(more.take(j as int) =~= more);
            },
        }
        i = i + 1;
    }
    let sorted = sort_texts(&all);
    let mut r: Vec<String> = Vec::new();
    i = 0;
    while i < sorted.len()
        invariant
            i <= sorted@.len(),
            dedup(views(r@), views(sorted@), i as int) == dedup(
                Seq::empty(),
                views(sorted@),
                0,
            ),
        decreases sorted@.len() - i,
    {
        assert(views(sorted@)[i as int] == sorted@[i as int]@);
        let mut repeated = false;
        if r.len() > 0 {
            assert(views(r@).last() == r@[r@.len() - 1]@);
            repeated = same(r[r.len() - 1].as_str(), sorted[i].as_str());
        }
        if !repeated {
            r.push(sorted[i].clone());
        }
        i = i + 1;
    }
    Some(r)
}

} // verus!
