//! Projection of a plan onto the objects that the agent owns.

use vstd::prelude::*;

use crate::change::{ChangeOperation, ObjectOwnership};
use crate::firewall_model::{
    FirewallInventory, FirewallMutationPlan, FirewallObject, FirewallObjectView, FirewallPlannedChange,
    FirewallPlannedChangeView,
};
use crate::items::Item;
use crate::network_openwrt::verdict_at;
use crate::order::{law_text_order, text_at_most, text_le};
use crate::text::same;
use crate::views::{group_views, lvres, opt, views};

verus! {

broadcast use group_views;

/// Why a plan cannot be projected.
#[derive(Debug, Clone, Copy, PartialEq, Eq, Structural)]
pub enum FirewallProjectionError {
    InvalidObject,
    Ownership,
    PlanMismatch,
}

impl View for FirewallProjectionError {
    type V = FirewallProjectionError;

    open spec fn view(&self) -> FirewallProjectionError {
        *self
    }
}

/// Whether one identity stands before another or is the same: by kind, then by name.
pub open spec fn key_le(ak: Seq<char>, ai: Seq<char>, bk: Seq<char>, bi: Seq<char>) -> bool {
    if ak == bk {
        text_le(ai, bi)
    } else {
        text_le(ak, bk)
    }
}

pub open spec fn object_le(a: FirewallObjectView, b: FirewallObjectView) -> bool {
    key_le(a.kind(), a.id(), b.kind(), b.id())
}

pub open spec fn same_identity(a: FirewallObjectView, b: FirewallObjectView) -> bool {
    a.kind() == b.kind() && a.id() == b.id()
}

/// The least index from `i` on of an object that does not stand before an identity.
pub open spec fn slot_from(
    objects: Seq<FirewallObjectView>,
    kind: Seq<char>,
    id: Seq<char>,
    i: int,
) -> int
    decreases objects.len() - i,
{
    if i < 0 || i >= objects.len() {
        objects.len() as int
    } else if key_le(kind, id, objects[i].kind(), objects[i].id()) {
        i
    } else {
        slot_from(objects, kind, id, i + 1)
    }
}

/// The object of an identity in an ordered list.
pub open spec fn held(objects: Seq<FirewallObjectView>, kind: Seq<char>, id: Seq<char>) -> Option<
    FirewallObjectView,
> {
    let at = slot_from(objects, kind, id, 0);
    if at < objects.len() && objects[at].kind() == kind && objects[at].id() == id {
        Some(objects[at])
    } else {
        None
    }
}

/// An ordered list with an object put in its place, instead of one of the same identity.
pub open spec fn with_object(objects: Seq<FirewallObjectView>, o: FirewallObjectView) -> Seq<
    FirewallObjectView,
> {
    let at = slot_from(objects, o.kind(), o.id(), 0);
    if held(objects, o.kind(), o.id()) is Some {
        objects.update(at, o)
    } else {
        objects.insert(at, o)
    }
}

/// An ordered list without the object of an identity.
pub open spec fn without_object(
    objects: Seq<FirewallObjectView>,
    kind: Seq<char>,
    id: Seq<char>,
) -> Seq<FirewallObjectView> {
    if held(objects, kind, id) is Some {
        objects.remove(slot_from(objects, kind, id, 0))
    } else {
        objects
    }
}

/// The owned objects among those from `i` on, put into an ordered list. Each object must be valid.
pub open spec fn owned_objects(
    acc: Seq<FirewallObjectView>,
    objects: Seq<FirewallObjectView>,
    valid: Seq<bool>,
    i: int,
) -> Result<Seq<FirewallObjectView>, FirewallProjectionError>
    decreases objects.len() - i,
{
    if i < 0 || i >= objects.len() {
        Ok(acc)
    } else if !verdict_at(valid, i) {
        Err(FirewallProjectionError::InvalidObject)
    } else if objects[i].ownership() == ObjectOwnership::AgentOwned {
        owned_objects(with_object(acc, objects[i]), objects, valid, i + 1)
    } else {
        owned_objects(acc, objects, valid, i + 1)
    }
}

pub open spec fn is_foreign(o: Option<FirewallObjectView>) -> bool {
    o is Some && o->Some_0.ownership() != ObjectOwnership::AgentOwned
}

/// The owned objects behind one change.
pub open spec fn change_projected(
    objects: Seq<FirewallObjectView>,
    c: FirewallPlannedChangeView,
) -> Result<Seq<FirewallObjectView>, FirewallProjectionError> {
    if (c.before is Some && !c.before_checks.valid) || (c.after is Some && !c.after_checks.valid) {
        Err(FirewallProjectionError::InvalidObject)
    } else {
        match (if c.after is Some {
            c.after
        } else {
            c.before
        }) {
            None => Err(FirewallProjectionError::PlanMismatch),
            Some(o) => if c.diff.object.kind != o.kind() || c.diff.object.id != o.id()
                || c.diff.object.ownership != ObjectOwnership::AgentOwned || is_foreign(c.before)
                || is_foreign(c.after) {
                Err(FirewallProjectionError::Ownership)
            } else {
                let now = held(objects, o.kind(), o.id());
                match c.diff.operation {
                    ChangeOperation::Create => if c.before is None && c.after is Some
                        && now is None {
                        Ok(with_object(objects, o))
                    } else {
                        Err(FirewallProjectionError::PlanMismatch)
                    },
                    ChangeOperation::Delete => if c.before is Some && c.after is None && now
                        == c.before {
                        Ok(without_object(objects, o.kind(), o.id()))
                    } else {
                        Err(FirewallProjectionError::PlanMismatch)
                    },
                    _ => if c.before is Some && c.after is Some && now == c.before {
                        Ok(with_object(objects, o))
                    } else {
                        Err(FirewallProjectionError::PlanMismatch)
                    },
                }
            },
        }
    }
}

/// The owned objects behind the changes from `i` on.
pub open spec fn changes_projected(
    objects: Seq<FirewallObjectView>,
    changes: Seq<FirewallPlannedChangeView>,
    i: int,
) -> Result<Seq<FirewallObjectView>, FirewallProjectionError>
    decreases changes.len() - i,
{
    if i < 0 || i >= changes.len() {
        Ok(objects)
    } else {
        match change_projected(objects, changes[i]) {
            Err(e) => Err(e),
            Ok(next) => changes_projected(next, changes, i + 1),
        }
    }
}

/// The owned objects of an inventory behind a plan, ordered by kind and name.
pub open spec fn projected(
    objects: Seq<FirewallObjectView>,
    valid: Seq<bool>,
    changes: Seq<FirewallPlannedChangeView>,
) -> Result<Seq<FirewallObjectView>, FirewallProjectionError> {
    match owned_objects(Seq::empty(), objects, valid, 0) {
        Err(e) => Err(e),
        Ok(owned) => changes_projected(owned, changes, 0),
    }
}

fn key_at_most(ak: &str, ai: &str, bk: &str, bi: &str) -> (r: bool)
    ensures
        r == key_le(ak@, ai@, bk@, bi@),
{
    if same(ak, bk) {
        text_at_most(ai, bi)
    } else {
        text_at_most(ak, bk)
    }
}

fn find_slot(objects: &Vec<FirewallObject>, kind: &str, id: &str) -> (r: usize)
    ensures
        r == slot_from(views(objects@), kind@, id@, 0),
        r <= objects@.len(),
{
    let mut i: usize = 0;
    while i < objects.len()
        invariant
            i <= objects@.len(),
            slot_from(views(objects@), kind@, id@, i as int) == slot_from(
                views(objects@),
                kind@,
                id@,
                0,
            ),
        decreases objects@.len() - i,
    {
        if key_at_most(kind, id, objects[i].kind(), objects[i].id()) {
            return i;
        }
        i = i + 1;
    }
    i
}

fn get_object<'a>(objects: &'a Vec<FirewallObject>, kind: &str, id: &str) -> (r: Option<
    &'a FirewallObject,
>)
    ensures
        match r {
            Some(o) => held(views(objects@), kind@, id@) == Some(o@),
            None => held(views(objects@), kind@, id@) is None,
        },
{
    let at: usize = find_slot(objects, kind, id);
    if at < objects.len() && same(objects[at].kind(), kind) && same(objects[at].id(), id) {
        Some(&objects[at])
    } else {
        None
    }
}

fn put_object(objects: &mut Vec<FirewallObject>, object: &FirewallObject)
    ensures
        views(final(objects)@) == with_object(views(old(objects)@), object@),
{
    let at: usize = find_slot(objects, object.kind(), object.id());
    let ghost before = views(objects@);
    let known = get_object(objects, object.kind(), object.id()).is_some();
    let copy = object.twin();
    if known {
        objects.set(at, copy);
        assert(views(objects@) =~= before.update(at as int, object@));
    } else {
        objects.insert(at, copy);
        assert(views(objects@) =~= before.insert(at as int, object@));
    }
}

fn remove_object(objects: &mut Vec<FirewallObject>, kind: &str, id: &str)
    ensures
        views(final(objects)@) == without_object(views(old(objects)@), kind@, id@),
{
    let at: usize = find_slot(objects, kind, id);
    let ghost before = views(objects@);
    if get_object(objects, kind, id).is_some() {
        let _ = objects.remove(at);
        assert(views(objects@) =~= before.remove(at as int));
    }
}

fn foreign(o: &Option<FirewallObject>) -> (r: bool)
    ensures
        r == is_foreign(opt(*o)),
{
    match o {
        Some(x) => x.ownership() != ObjectOwnership::AgentOwned,
        None => false,
    }
}

fn is_now(objects: &Vec<FirewallObject>, kind: &str, id: &str, before: &FirewallObject) -> (r: bool)
    ensures
        r == (held(views(objects@), kind@, id@) == Some(before@)),
{
    match get_object(objects, kind, id) {
        Some(o) => o.alike(before),
        None => false,
    }
}

fn project_change(objects: &mut Vec<FirewallObject>, change: &FirewallPlannedChange) -> (r: Result<
    (),
    FirewallProjectionError,
>)
    ensures
        match r {
            Ok(()) => change_projected(views(old(objects)@), change@) == Ok::<
                Seq<FirewallObjectView>,
                FirewallProjectionError,
            >(views(final(objects)@)),
            Err(e) => change_projected(views(old(objects)@), change@) == Err::<
                Seq<FirewallObjectView>,
                FirewallProjectionError,
            >(e),
        },
{
    if (change.before.is_some() && !change.before_checks.valid) || (change.after.is_some()
        && !change.after_checks.valid) {
        return Err(FirewallProjectionError::InvalidObject);
    }
    let changed = match (&change.after, &change.before) {
        (Some(o), _) => o,
        (None, Some(o)) => o,
        (None, None) => {
            return Err(FirewallProjectionError::PlanMismatch);
        },
    };
    if !same(change.diff.object.kind.as_str(), changed.kind()) || !same(
        change.diff.object.id.as_str(),
        changed.id(),
    ) || change.diff.object.ownership != ObjectOwnership::AgentOwned || foreign(&change.before)
        || foreign(&change.after) {
        return Err(FirewallProjectionError::Ownership);
    }
    match change.diff.operation {
        ChangeOperation::Create => {
            if change.before.is_some() || change.after.is_none() || get_object(
                objects,
                changed.kind(),
                changed.id(),
            ).is_some() {
                return Err(FirewallProjectionError::PlanMismatch);
            }
            put_object(objects, changed);
        },
        ChangeOperation::Delete => match (&change.before, &change.after) {
            (Some(before), None) => {
                if !is_now(objects, changed.kind(), changed.id(), before) {
                    return Err(FirewallProjectionError::PlanMismatch);
                }
                remove_object(objects, changed.kind(), changed.id());
            },
            _ => {
                return Err(FirewallProjectionError::PlanMismatch);
            },
        },
        _ => match (&change.before, &change.after) {
            (Some(before), Some(_)) => {
                if !is_now(objects, changed.kind(), changed.id(), before) {
                    return Err(FirewallProjectionError::PlanMismatch);
                }
                put_object(objects, changed);
            },
            _ => {
                return Err(FirewallProjectionError::PlanMismatch);
            },
        },
    }
    Ok(())
}

/// Applies a plan to the objects of an inventory that the agent owns.
///
/// The verdicts say of each object of the inventory whether the object model accepts it.
pub fn project_agent_objects(
    inventory: &FirewallInventory,
    valid: &[bool],
    plan: &FirewallMutationPlan,
) -> (r: Result<Vec<FirewallObject>, FirewallProjectionError>)
    ensures
        lvres(r) == projected(inventory@.objects, valid@, plan@.changes),
{
    let ghost all = inventory@.objects;
    let mut objects: Vec<FirewallObject> = Vec::new();
    let mut i: usize = 0;
    while i < inventory.objects.len()
        invariant
            i <= inventory.objects@.len(),
            all == views(inventory.objects@),
            all == inventory@.objects,
            owned_objects(views(objects@), all, valid@, i as int) == owned_objects(
                Seq::empty(),
                all,
                valid@,
                0,
            ),
        decreases inventory.objects@.len() - i,
    {
        assert(all[i as int] == inventory.objects@[i as int]@);
        if !(i < valid.len() && valid[i]) {
            return Err(FirewallProjectionError::InvalidObject);
        }
        if inventory.objects[i].ownership() == ObjectOwnership::AgentOwned {
            put_object(&mut objects, &inventory.objects[i]);
        }
        i = i + 1;
    }
    let ghost owned = views(objects@);
    let ghost changes = plan@.changes;
    i = 0;
    while i < plan.changes.len()
        invariant
            i <= plan.changes@.len(),
            changes == views(plan.changes@),
            changes == plan@.changes,
            owned_objects(Seq::empty(), inventory@.objects, valid@, 0) == Ok::<
                Seq<FirewallObjectView>,
                FirewallProjectionError,
            >(owned),
            changes_projected(views(objects@), changes, i as int) == changes_projected(
                owned,
                changes,
                0,
            ),
        decreases plan.changes@.len() - i,
    {
        assert(changes[i as int] == plan.changes@[i as int]@);
        match project_change(&mut objects, &plan.changes[i]) {
            Ok(()) => {},
            Err(e) => {
                return Err(e);
            },
        }
        i = i + 1;
    }
    Ok(objects)
}

/// Owned objects in ascending order, each identity once.
pub open spec fn is_listing(objects: Seq<FirewallObjectView>) -> bool {
    &&& forall|i: int|
        0 <= i < objects.len() ==> (#[trigger] objects[i]).ownership()
            == ObjectOwnership::AgentOwned
    &&& forall|i: int, j: int|
        0 <= i < j < objects.len() ==> object_le(#[trigger] objects[i], #[trigger] objects[j])
            && !same_identity(objects[i], objects[j])
}

proof fn lemma_key_order(ak: Seq<char>, ai: Seq<char>, bk: Seq<char>, bi: Seq<char>)
    ensures
        key_le(ak, ai, ak, ai),
        key_le(ak, ai, bk, bi) || key_le(bk, bi, ak, ai),
        key_le(ak, ai, bk, bi) && key_le(bk, bi, ak, ai) ==> ak == bk && ai == bi,
{
    law_text_order();
    let r = |a: Seq<char>, b: Seq<char>| text_le(a, b);
    assert(r(ak, bk) || r(bk, ak));
    assert(r(ai, bi) || r(bi, ai));
    assert(r(ai, ai));
    if text_le(ak, bk) && text_le(bk, ak) {
        assert(r(ak, bk) && r(bk, ak));
    }
    if text_le(ai, bi) && text_le(bi, ai) {
        assert(r(ai, bi) && r(bi, ai));
    }
}

proof fn lemma_key_transitive(
    ak: Seq<char>,
    ai: Seq<char>,
    bk: Seq<char>,
    bi: Seq<char>,
    ck: Seq<char>,
    ci: Seq<char>,
)
    requires
        key_le(ak, ai, bk, bi),
        key_le(bk, bi, ck, ci),
    ensures
        key_le(ak, ai, ck, ci),
{
    law_text_order();
    let r = |a: Seq<char>, b: Seq<char>| text_le(a, b);
    if ak == bk && bk == ck {
        assert(r(ai, bi) && r(bi, ci));
        assert(r(ai, ci));
    } else if ak != bk && bk != ck {
        assert(r(ak, bk) && r(bk, ck));
        assert(r(ak, ck));
        if ak == ck {
            assert(r(ak, bk) && r(bk, ak));
        }
    }
}

proof fn lemma_slot(objects: Seq<FirewallObjectView>, kind: Seq<char>, id: Seq<char>, i: int)
    requires
        0 <= i <= objects.len(),
    ensures
        i <= slot_from(objects, kind, id, i) <= objects.len(),
        forall|j: int|
            i <= j < slot_from(objects, kind, id, i) ==> !key_le(
                kind,
                id,
                (#[trigger] objects[j]).kind(),
                objects[j].id(),
            ),
        slot_from(objects, kind, id, i) < objects.len() ==> key_le(
            kind,
            id,
            objects[slot_from(objects, kind, id, i)].kind(),
            objects[slot_from(objects, kind, id, i)].id(),
        ),
    decreases objects.len() - i,
{
    if i < objects.len() && !key_le(kind, id, objects[i].kind(), objects[i].id()) {
        lemma_slot(objects, kind, id, i + 1);
    }
}

proof fn lemma_put_keeps_listing(objects: Seq<FirewallObjectView>, o: FirewallObjectView)
    requires
        is_listing(objects),
        o.ownership() == ObjectOwnership::AgentOwned,
    ensures
        is_listing(with_object(objects, o)),
{
    let at = slot_from(objects, o.kind(), o.id(), 0);
    lemma_slot(objects, o.kind(), o.id(), 0);
    let next = with_object(objects, o);
    let known = held(objects, o.kind(), o.id()) is Some;
    assert forall|i: int, j: int| 0 <= i < j < next.len() implies object_le(
        #[trigger] next[i],
        #[trigger] next[j],
    ) && !same_identity(next[i], next[j]) by {
        if known {
            if i != at && j != at {
                assert(object_le(objects[i], objects[j]));
            } else if i == at {
                assert(object_le(objects[at], objects[j]));
                assert(!same_identity(objects[at], objects[j]));
            } else {
                assert(object_le(objects[i], objects[at]));
                assert(!same_identity(objects[i], objects[at]));
            }
        } else {
            let a = if i < at {
                i
            } else {
                i - 1
            };
            let b = if j < at {
                j
            } else {
                j - 1
            };
            if i != at && j != at {
                assert(object_le(objects[a], objects[b]));
                assert(!same_identity(objects[a], objects[b]));
            } else if i == at {
                if b > at {
                    assert(object_le(objects[at], objects[b]));
                    lemma_key_transitive(
                        o.kind(),
                        o.id(),
                        objects[at].kind(),
                        objects[at].id(),
                        objects[b].kind(),
                        objects[b].id(),
                    );
                    if same_identity(o, objects[b]) {
                        lemma_key_order(
                            objects[at].kind(),
                            objects[at].id(),
                            o.kind(),
                            o.id(),
                        );
                    }
                }
            } else {
                lemma_key_order(objects[a].kind(), objects[a].id(), o.kind(), o.id());
            }
        }
    }
    assert forall|i: int| 0 <= i < next.len() implies (#[trigger] next[i]).ownership()
        == ObjectOwnership::AgentOwned by {
        if known {
            if i != at {
                assert(objects[i].ownership() == ObjectOwnership::AgentOwned);
            }
        } else if i < at {
            assert(objects[i].ownership() == ObjectOwnership::AgentOwned);
        } else if i > at {
            assert(objects[i - 1].ownership() == ObjectOwnership::AgentOwned);
        }
    }
}

proof fn lemma_remove_keeps_listing(
    objects: Seq<FirewallObjectView>,
    kind: Seq<char>,
    id: Seq<char>,
)
    requires
        is_listing(objects),
    ensures
        is_listing(without_object(objects, kind, id)),
{
    let at = slot_from(objects, kind, id, 0);
    lemma_slot(objects, kind, id, 0);
    let next = without_object(objects, kind, id);
    if held(objects, kind, id) is Some {
        assert forall|i: int, j: int| 0 <= i < j < next.len() implies object_le(
            #[trigger] next[i],
            #[trigger] next[j],
        ) && !same_identity(next[i], next[j]) by {
            let a = if i < at {
                i
            } else {
                i + 1
            };
            let b = if j < at {
                j
            } else {
                j + 1
            };
            assert(object_le(objects[a], objects[b]));
            assert(!same_identity(objects[a], objects[b]));
        }
        assert forall|i: int| 0 <= i < next.len() implies (#[trigger] next[i]).ownership()
            == ObjectOwnership::AgentOwned by {
            let a = if i < at {
                i
            } else {
                i + 1
            };
            assert(objects[a].ownership() == ObjectOwnership::AgentOwned);
        }
    }
}

proof fn lemma_owned_listing(
    acc: Seq<FirewallObjectView>,
    objects: Seq<FirewallObjectView>,
    valid: Seq<bool>,
    i: int,
)
    requires
        is_listing(acc),
    ensures
        owned_objects(acc, objects, valid, i) matches Ok(r) ==> is_listing(r),
    decreases objects.len() - i,
{
    if 0 <= i < objects.len() && verdict_at(valid, i) {
        if objects[i].ownership() == ObjectOwnership::AgentOwned {
            lemma_put_keeps_listing(acc, objects[i]);
            lemma_owned_listing(with_object(acc, objects[i]), objects, valid, i + 1);
        } else {
            lemma_owned_listing(acc, objects, valid, i + 1);
        }
    }
}

proof fn lemma_changes_listing(
    objects: Seq<FirewallObjectView>,
    changes: Seq<FirewallPlannedChangeView>,
    i: int,
)
    requires
        is_listing(objects),
    ensures
        changes_projected(objects, changes, i) matches Ok(r) ==> is_listing(r),
    decreases changes.len() - i,
{
    if 0 <= i < changes.len() {
        let c = changes[i];
        match change_projected(objects, c) {
            Err(_) => {},
            Ok(next) => {
                let o = (if c.after is Some {
                    c.after
                } else {
                    c.before
                })->Some_0;
                if c.diff.operation == ChangeOperation::Delete {
                    lemma_remove_keeps_listing(objects, o.kind(), o.id());
                } else {
                    lemma_put_keeps_listing(objects, o);
                }
                lemma_changes_listing(next, changes, i + 1);
            },
        }
    }
}

/// A projection holds only objects that the agent owns, ordered by kind and name, each identity
/// once.
pub proof fn law_projection_is_listing(
    objects: Seq<FirewallObjectView>,
    valid: Seq<bool>,
    changes: Seq<FirewallPlannedChangeView>,
)
    ensures
        projected(objects, valid, changes) matches Ok(r) ==> is_listing(r),
{
    lemma_owned_listing(Seq::empty(), objects, valid, 0);
    match owned_objects(Seq::empty(), objects, valid, 0) {
        Ok(owned) => {
            lemma_changes_listing(owned, changes, 0);
        },
        Err(_) => {},
    }
}

} // verus!
