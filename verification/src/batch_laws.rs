//! What a batch of configuration commands is made of, and which plans it is made for.

use vstd::prelude::*;

use crate::change::ChangeOperation;
use crate::firewall::binding_from as firewall_binding_from;
use crate::firewall::change_drafted as firewall_change_drafted;
use crate::firewall::changes_match as firewall_changes_match;
use crate::firewall::drafted as firewall_drafted;
use crate::firewall::object_section as firewall_object_section;
use crate::firewall::plan_matches as firewall_plan_matches;
use crate::firewall::supported_names as firewall_supported_names;
use crate::firewall::{firewall_stage, order_of, StageDraftView};
use crate::firewall_inventory::OpenWrtObjectBindingView;
use crate::firewall_inventory::object_from as firewall_object_from;
use crate::firewall_model::{FirewallObjectView, FirewallPlannedChangeView};
use crate::iptables_line_laws::flat;
use crate::network_model::{NetworkObjectView, NetworkPlannedChangeView};
use crate::network_openwrt::object_from as network_object_from;
use crate::network_openwrt::OpenWrtNetworkObjectBindingView;
use crate::network_stage::changes_match as network_changes_match;
use crate::network_stage::object_section as network_object_section;
use crate::network_stage::plan_matches as network_plan_matches;
use crate::network_stage::supported_names as network_supported_names;
use crate::network_stage::{created, updated};
use crate::platform::FirewallBackend;
use crate::text::{decimal, lower_all};
use crate::uci_render::{
    assign_line, cleared_text, delete_option_line, lists_text, options_text, section_text, values_text,
    RenderedSectionView,
};
use crate::wireless_model::{WirelessBand, WirelessChannel, WirelessRadioConfigView};
use crate::wireless_openwrt::{
    mode_text, mutable_options, radio_updated, with_option, OpenWrtWirelessBandEncoding,
    OpenWrtWirelessObjectBindingView,
};

verus! {

/// The command that gives an option a value.
pub open spec fn set_line(package: Seq<char>, section: Seq<char>, name: Seq<char>, value: Seq<char>) -> Seq<char> {
    "set "@ + package + "."@ + section + "."@ + name + "='"@ + value + "'\n"@
}

/// The command that adds a value to an option.
pub open spec fn add_line(package: Seq<char>, section: Seq<char>, name: Seq<char>, value: Seq<char>) -> Seq<char> {
    "add_list "@ + package + "."@ + section + "."@ + name + "='"@ + value + "'\n"@
}

/// The command that removes an option.
pub open spec fn drop_line(package: Seq<char>, section: Seq<char>, name: Seq<char>) -> Seq<char> {
    "delete "@ + package + "."@ + section + "."@ + name + "\n"@
}

/// The commands that add values to an option.
pub open spec fn add_lines(package: Seq<char>, section: Seq<char>, name: Seq<char>, values: Seq<Seq<char>>) -> Seq<char> {
    flat(|i: int| add_line(package, section, name, values[i]), 0, values.len() as int)
}

/// The commands that fill a section: one for each option and one for each value of a list.
pub open spec fn fill_lines(package: Seq<char>, section: Seq<char>, r: RenderedSectionView) -> Seq<char> {
    flat(
        |i: int| set_line(package, section, r.options[i].0, r.options[i].1),
        0,
        r.options.len() as int,
    ) + flat(|i: int| add_lines(package, section, r.lists[i].0, r.lists[i].1), 0, r.lists.len() as int)
}

proof fn lemma_assign(package: Seq<char>, section: Seq<char>, name: Seq<char>, value: Seq<char>)
    ensures
        assign_line("set"@, package, section, name, value) == set_line(package, section, name, value),
        assign_line("add_list"@, package, section, name, value) == add_line(package, section, name, value),
{
    reveal_strlit("set");
    reveal_strlit("set ");
    reveal_strlit("add_list");
    reveal_strlit("add_list ");
    reveal_strlit(" ");
    reveal_strlit("=");
    reveal_strlit("'");
    reveal_strlit("='");
    reveal_strlit("\n");
    reveal_strlit("'\n");
    assert("set"@ + " "@ =~= "set "@);
    assert("add_list"@ + " "@ =~= "add_list "@);
    lemma_quoted("set "@ + package + "."@ + section + "."@ + name, value);
    lemma_quoted("add_list "@ + package + "."@ + section + "."@ + name, value);
}

proof fn lemma_quoted(h: Seq<char>, value: Seq<char>)
    ensures
        h + "="@ + ("'"@ + value + "'"@) + "\n"@ == h + "='"@ + value + "'\n"@,
{
    reveal_strlit("=");
    reveal_strlit("'");
    reveal_strlit("='");
    reveal_strlit("\n");
    reveal_strlit("'\n");
    assert("="@ + "'"@ =~= "='"@);
    assert("'"@ + "\n"@ =~= "'\n"@);
    assert(h + "="@ + ("'"@ + value + "'"@) + "\n"@ =~= h + ("="@ + "'"@) + value + ("'"@ + "\n"@));
}

proof fn lemma_options(
    acc: Seq<char>,
    package: Seq<char>,
    section: Seq<char>,
    r: RenderedSectionView,
    i: int,
)
    requires
        0 <= i <= r.options.len(),
        options_text(acc, package, section, r.options, i) is Some,
    ensures
        options_text(acc, package, section, r.options, i)->Some_0 == acc + flat(
            |i: int| set_line(package, section, r.options[i].0, r.options[i].1),
            i,
            r.options.len() as int,
        ),
    decreases r.options.len() - i,
{
    let f = |i: int| set_line(package, section, r.options[i].0, r.options[i].1);
    let n = r.options.len() as int;
    if i < n {
        lemma_assign(package, section, r.options[i].0, r.options[i].1);
        let l = set_line(package, section, r.options[i].0, r.options[i].1);
        lemma_options(acc + l, package, section, r, i + 1);
        assert(f(i) == l);
        assert(acc + f(i) + flat(f, i + 1, n) =~= acc + (f(i) + flat(f, i + 1, n)));
    } else {
        assert(acc + flat(f, i, n) =~= acc);
    }
}

proof fn lemma_values(
    acc: Seq<char>,
    package: Seq<char>,
    section: Seq<char>,
    name: Seq<char>,
    values: Seq<Seq<char>>,
    i: int,
)
    requires
        0 <= i <= values.len(),
        values_text(acc, package, section, name, values, i) is Some,
    ensures
        values_text(acc, package, section, name, values, i)->Some_0 == acc + flat(
            |i: int| add_line(package, section, name, values[i]),
            i,
            values.len() as int,
        ),
    decreases values.len() - i,
{
    let f = |i: int| add_line(package, section, name, values[i]);
    let n = values.len() as int;
    if i < n {
        lemma_assign(package, section, name, values[i]);
        let l = add_line(package, section, name, values[i]);
        lemma_values(acc + l, package, section, name, values, i + 1);
        assert(f(i) == l);
        assert(acc + f(i) + flat(f, i + 1, n) =~= acc + (f(i) + flat(f, i + 1, n)));
    } else {
        assert(acc + flat(f, i, n) =~= acc);
    }
}

proof fn lemma_lists(acc: Seq<char>, package: Seq<char>, section: Seq<char>, r: RenderedSectionView, i: int)
    requires
        0 <= i <= r.lists.len(),
        lists_text(acc, package, section, r.lists, i) is Some,
    ensures
        lists_text(acc, package, section, r.lists, i)->Some_0 == acc + flat(
            |i: int| add_lines(package, section, r.lists[i].0, r.lists[i].1),
            i,
            r.lists.len() as int,
        ),
    decreases r.lists.len() - i,
{
    let f = |i: int| add_lines(package, section, r.lists[i].0, r.lists[i].1);
    let n = r.lists.len() as int;
    if i < n {
        lemma_values(acc, package, section, r.lists[i].0, r.lists[i].1, 0);
        let next = values_text(acc, package, section, r.lists[i].0, r.lists[i].1, 0)->Some_0;
        lemma_lists(next, package, section, r, i + 1);
        assert(f(i) == add_lines(package, section, r.lists[i].0, r.lists[i].1));
        assert(acc + f(i) + flat(f, i + 1, n) =~= acc + (f(i) + flat(f, i + 1, n)));
    } else {
        assert(acc + flat(f, i, n) =~= acc);
    }
}

/// A section is filled by one command for each option and one for each value of a list, in their order.
pub proof fn law_section_is_filled_option_by_option(
    acc: Seq<char>,
    package: Seq<char>,
    section: Seq<char>,
    r: RenderedSectionView,
)
    ensures
        section_text(acc, package, section, r) matches Some(t) ==> t == acc + fill_lines(package, section, r),
{
    if section_text(acc, package, section, r) is Some {
        lemma_options(acc, package, section, r, 0);
        let next = options_text(acc, package, section, r.options, 0)->Some_0;
        lemma_lists(next, package, section, r, 0);
        let x = flat(
            |i: int| set_line(package, section, r.options[i].0, r.options[i].1),
            0,
            r.options.len() as int,
        );
        let y = flat(
            |i: int| add_lines(package, section, r.lists[i].0, r.lists[i].1),
            0,
            r.lists.len() as int,
        );
        assert(acc + x + y =~= acc + (x + y));
    }
}

/// The command that removes a present option, where it is one of the known ones.
pub open spec fn clear_line(
    package: Seq<char>,
    section: Seq<char>,
    name: Seq<char>,
    known: Seq<Seq<char>>,
) -> Seq<char> {
    if known.contains(name) {
        drop_line(package, section, name)
    } else {
        Seq::empty()
    }
}

/// The commands that remove the known ones of the present options.
pub open spec fn clear_lines(
    package: Seq<char>,
    section: Seq<char>,
    present: Seq<Seq<char>>,
    known: Seq<Seq<char>>,
) -> Seq<char> {
    flat(|i: int| clear_line(package, section, present[i], known), 0, present.len() as int)
}

proof fn lemma_cleared(
    acc: Seq<char>,
    package: Seq<char>,
    section: Seq<char>,
    present: Seq<Seq<char>>,
    known: Seq<Seq<char>>,
    i: int,
)
    requires
        0 <= i <= present.len(),
    ensures
        cleared_text(acc, package, section, present, known, i) == acc + flat(
            |i: int| clear_line(package, section, present[i], known),
            i,
            present.len() as int,
        ),
    decreases present.len() - i,
{
    let f = |i: int| clear_line(package, section, present[i], known);
    let n = present.len() as int;
    if i < n {
        assert(f(i) == clear_line(package, section, present[i], known));
        if known.contains(present[i]) {
            let l = delete_option_line(package, section, present[i]);
            lemma_cleared(acc + l, package, section, present, known, i + 1);
            assert(f(i) == l);
            assert(acc + f(i) + flat(f, i + 1, n) =~= acc + (f(i) + flat(f, i + 1, n)));
        } else {
            lemma_cleared(acc, package, section, present, known, i + 1);
            assert(acc + flat(f, i + 1, n) =~= acc + (f(i) + flat(f, i + 1, n)));
        }
    } else {
        assert(acc + flat(f, i, n) =~= acc);
    }
}

/// An update removes exactly those present options that it knows.
pub proof fn law_known_options_are_cleared(
    acc: Seq<char>,
    package: Seq<char>,
    section: Seq<char>,
    present: Seq<Seq<char>>,
    known: Seq<Seq<char>>,
)
    ensures
        cleared_text(acc, package, section, present, known, 0) == acc + clear_lines(package, section, present, known),
{
    lemma_cleared(acc, package, section, present, known, 0);
}

/// The name of a fresh section: the mark of its kind and the first sixteen digits of the digest, in lower case.
pub open spec fn fresh_name(o: FirewallObjectView, digest: Seq<char>) -> Seq<char> {
    (match o {
        FirewallObjectView::Zone(_) => "mbed_z_"@,
        FirewallObjectView::Forwarding(_) => "mbed_f_"@,
        FirewallObjectView::FilterRule(_) => "mbed_r_"@,
        FirewallObjectView::AddressSet(_) => "mbed_s_"@,
        FirewallObjectView::NatRule(_) => "mbed_n_"@,
    }) + lower_all(digest.take(16))
}

/// The object that a change is about: what it leads to, or else what it removes.
pub open spec fn firewall_subject(c: FirewallPlannedChangeView) -> FirewallObjectView {
    match c.after {
        Some(o) => o,
        None => c.before->Some_0,
    }
}

/// The commands of a change of the firewall: a new section is made and filled, a changed one is cleared of what is
/// known and filled, a removed one is deleted and a moved one is put in its place.
pub open spec fn firewall_change_text(
    c: FirewallPlannedChangeView,
    bindings: Seq<OpenWrtObjectBindingView>,
    backend: FirewallBackend,
) -> Seq<char> {
    let o = firewall_subject(c);
    let r = firewall_object_section(o, backend)->Ok_0;
    let b = firewall_binding_from(bindings, o.kind(), o.id(), 0)->Some_0;
    match c.diff.operation {
        ChangeOperation::Create => {
            let name = fresh_name(o, c.diff.after_digest->Some_0);
            "set firewall."@ + name + "="@ + r.section_type + "\n"@ + fill_lines("firewall"@, name, r)
        },
        ChangeOperation::Update => clear_lines(
            "firewall"@,
            b.section,
            b.present_options,
            firewall_supported_names(o.kind()),
        ) + fill_lines("firewall"@, b.section, r),
        ChangeOperation::Delete => "delete firewall."@ + b.section + "\n"@,
        ChangeOperation::Move => "reorder firewall."@ + b.section + "="@ + decimal(order_of(o)->Some_0 as nat)
            + "\n"@,
    }
}

proof fn lemma_firewall_kinds(o: FirewallObjectView, digest: Seq<char>)
    ensures
        crate::firewall::fresh_section(o.kind(), digest) matches Some(s) ==> s == fresh_name(o, digest),
{
    reveal_strlit("zone");
    reveal_strlit("forwarding");
    reveal_strlit("filter_rule");
    reveal_strlit("address_set");
    reveal_strlit("nat_rule");
    assert("zone"@.len() == 4 && "forwarding"@.len() == 10 && "filter_rule"@.len() == 11 && "address_set"@.len() == 11
        && "nat_rule"@.len() == 8);
    assert("filter_rule"@[0] == 'f' && "address_set"@[0] == 'a');
}

proof fn lemma_firewall_heads()
    ensures
        "set "@ + "firewall"@ + "."@ == "set firewall."@,
        "delete "@ + "firewall"@ + "."@ == "delete firewall."@,
{
    reveal_strlit("set ");
    reveal_strlit("firewall");
    reveal_strlit(".");
    reveal_strlit("set firewall.");
    reveal_strlit("delete ");
    reveal_strlit("delete firewall.");
    assert("set "@ + "firewall"@ + "."@ =~= "set firewall."@);
    assert("delete "@ + "firewall"@ + "."@ =~= "delete firewall."@);
}

proof fn lemma_firewall_change(
    d: StageDraftView,
    c: FirewallPlannedChangeView,
    bindings: Seq<OpenWrtObjectBindingView>,
    backend: FirewallBackend,
)
    requires
        firewall_change_drafted(d, c, bindings, backend) is Ok,
    ensures
        firewall_change_drafted(d, c, bindings, backend)->Ok_0.batch == d.batch + firewall_change_text(
            c,
            bindings,
            backend,
        ),
{
    let o = firewall_subject(c);
    assert(crate::firewall::subject(c) == Some(o));
    lemma_firewall_heads();
    match c.diff.operation {
        ChangeOperation::Create => {
            let digest = c.diff.after_digest->Some_0;
            lemma_firewall_kinds(o, digest);
            let r = firewall_object_section(o, backend)->Ok_0;
            let name = fresh_name(o, digest);
            let head = crate::uci_render::create_line("firewall"@, name, r.section_type);
            law_section_is_filled_option_by_option(d.batch + head, "firewall"@, name, r);
            let fill = fill_lines("firewall"@, name, r);
            assert(d.batch + head + fill =~= d.batch + (head + fill));
        },
        ChangeOperation::Update => {
            let b = firewall_binding_from(bindings, o.kind(), o.id(), 0)->Some_0;
            let r = firewall_object_section(o, backend)->Ok_0;
            let known = firewall_supported_names(o.kind());
            law_known_options_are_cleared(d.batch, "firewall"@, b.section, b.present_options, known);
            let clear = clear_lines("firewall"@, b.section, b.present_options, known);
            law_section_is_filled_option_by_option(d.batch + clear, "firewall"@, b.section, r);
            let fill = fill_lines("firewall"@, b.section, r);
            assert(d.batch + clear + fill =~= d.batch + (clear + fill));
        },
        ChangeOperation::Delete => {},
        ChangeOperation::Move => {},
    }
}

proof fn lemma_firewall_drafted(
    d: StageDraftView,
    changes: Seq<FirewallPlannedChangeView>,
    bindings: Seq<OpenWrtObjectBindingView>,
    backend: FirewallBackend,
    i: int,
)
    requires
        0 <= i <= changes.len(),
        firewall_drafted(d, changes, bindings, backend, i) is Ok,
    ensures
        firewall_drafted(d, changes, bindings, backend, i)->Ok_0.batch == d.batch + flat(
            |k: int| firewall_change_text(changes[k], bindings, backend),
            i,
            changes.len() as int,
        ),
    decreases changes.len() - i,
{
    let f = |k: int| firewall_change_text(changes[k], bindings, backend);
    let n = changes.len() as int;
    if i < n {
        let next = firewall_change_drafted(d, changes[i], bindings, backend)->Ok_0;
        lemma_firewall_change(d, changes[i], bindings, backend);
        lemma_firewall_drafted(next, changes, bindings, backend, i + 1);
        assert(f(i) == firewall_change_text(changes[i], bindings, backend));
        assert(d.batch + f(i) + flat(f, i + 1, n) =~= d.batch + (f(i) + flat(f, i + 1, n)));
    } else {
        assert(d.batch + flat(f, i, n) =~= d.batch);
    }
}

/// A batch for the firewall holds the commands of each change, in their order, and the commit behind them.
pub proof fn law_firewall_batch_is_made_of_its_changes(
    changes: Seq<FirewallPlannedChangeView>,
    bindings: Seq<OpenWrtObjectBindingView>,
    occupied: Seq<Seq<char>>,
    backend: FirewallBackend,
)
    requires
        firewall_stage(changes, bindings, occupied, backend) is Ok,
    ensures
        firewall_stage(changes, bindings, occupied, backend)->Ok_0.uci_batch == flat(
            |k: int| firewall_change_text(changes[k], bindings, backend),
            0,
            changes.len() as int,
        ) + "commit firewall\n"@,
{
    let d = StageDraftView {
        batch: Seq::empty(),
        reserved: if occupied.len() > 0 {
            occupied
        } else {
            crate::firewall::bound_sections(bindings)
        },
    };
    lemma_firewall_drafted(d, changes, bindings, backend, 0);
    let t = flat(|k: int| firewall_change_text(changes[k], bindings, backend), 0, changes.len() as int);
    assert(d.batch + t =~= t);
}

/// The commands of a new section of the network package.
pub proof fn law_network_section_is_made_and_filled(
    batch: Seq<char>,
    section: Seq<char>,
    o: NetworkObjectView,
    valid: bool,
)
    requires
        created(batch, section, o, valid) is Ok,
    ensures
        ({
            let r = network_object_section(o, valid)->Ok_0;
            created(batch, section, o, valid)->Ok_0 == batch + ("set network."@ + section + "="@ + r.section_type
                + "\n"@ + fill_lines("network"@, section, r))
        }),
{
    let r = network_object_section(o, valid)->Ok_0;
    reveal_strlit("set ");
    reveal_strlit("network");
    reveal_strlit(".");
    reveal_strlit("set network.");
    assert("set "@ + "network"@ + "."@ =~= "set network."@);
    let head = crate::uci_render::create_line("network"@, section, r.section_type);
    law_section_is_filled_option_by_option(batch + head, "network"@, section, r);
    let fill = fill_lines("network"@, section, r);
    assert(batch + head + fill =~= batch + (head + fill));
}

/// The commands of a changed section of the network package: it is cleared of what is known and filled.
pub proof fn law_network_section_is_cleared_and_filled(
    batch: Seq<char>,
    b: OpenWrtNetworkObjectBindingView,
    o: NetworkObjectView,
    valid: bool,
)
    requires
        updated(batch, b, o, valid) is Ok,
    ensures
        ({
            let r = network_object_section(o, valid)->Ok_0;
            &&& r.section_type == b.section_type
            &&& updated(batch, b, o, valid)->Ok_0 == batch + (clear_lines(
                "network"@,
                b.section,
                b.present_options,
                network_supported_names(o.kind()),
            ) + fill_lines("network"@, b.section, r))
        }),
{
    let r = network_object_section(o, valid)->Ok_0;
    let known = network_supported_names(o.kind());
    law_known_options_are_cleared(batch, "network"@, b.section, b.present_options, known);
    let clear = clear_lines("network"@, b.section, b.present_options, known);
    law_section_is_filled_option_by_option(batch + clear, "network"@, b.section, r);
    let fill = fill_lines("network"@, b.section, r);
    assert(batch + clear + fill =~= batch + (clear + fill));
}

proof fn lemma_firewall_at(objects: Seq<FirewallObjectView>, kind: Seq<char>, id: Seq<char>, i: int)
    requires
        0 <= i <= objects.len(),
    ensures
        ({
            let k = firewall_object_from(objects, kind, id, i);
            &&& i <= k <= objects.len()
            &&& k < objects.len() ==> objects[k].kind() == kind && objects[k].id() == id
            &&& forall|j: int| i <= j < k ==> !((#[trigger] objects[j]).kind() == kind && objects[j].id() == id)
        }),
    decreases objects.len() - i,
{
    if i < objects.len() && !(objects[i].kind() == kind && objects[i].id() == id) {
        lemma_firewall_at(objects, kind, id, i + 1);
    }
}

proof fn lemma_network_at(objects: Seq<NetworkObjectView>, kind: Seq<char>, id: Seq<char>, i: int)
    requires
        0 <= i <= objects.len(),
    ensures
        ({
            let k = network_object_from(objects, kind, id, i);
            &&& i <= k <= objects.len()
            &&& k < objects.len() ==> objects[k].kind() == kind && objects[k].id() == id
            &&& forall|j: int| i <= j < k ==> !((#[trigger] objects[j]).kind() == kind && objects[j].id() == id)
        }),
    decreases objects.len() - i,
{
    if i < objects.len() && !(objects[i].kind() == kind && objects[i].id() == id) {
        lemma_network_at(objects, kind, id, i + 1);
    }
}

/// Whether a change of the firewall fits what is there: it makes what is not there, or changes, moves or removes
/// exactly what is there, and its digests are those of its two sides.
pub open spec fn fits_firewall(c: FirewallPlannedChangeView, objects: Seq<FirewallObjectView>) -> bool {
    &&& c.before is Some || c.after is Some
    &&& c.before matches Some(o) ==> objects.contains(o) && c.before_checks.digest is Some && c.diff.before_digest
        == c.before_checks.digest
    &&& c.before is None ==> c.diff.before_digest is None
    &&& c.after is Some ==> c.after_checks.digest is Some && c.diff.after_digest == c.after_checks.digest
    &&& c.after is None ==> c.diff.after_digest is None
    &&& c.diff.object.expected_version == c.diff.before_digest
    &&& c.diff.object.kind == firewall_subject(c).kind()
    &&& c.diff.object.id == firewall_subject(c).id()
    &&& c.diff.object.ownership == firewall_subject(c).ownership()
    &&& match c.diff.operation {
        ChangeOperation::Create => c.before is None && c.after is Some && forall|j: int|
            0 <= j < objects.len() ==> !((#[trigger] objects[j]).kind() == c.diff.object.kind && objects[j].id()
                == c.diff.object.id),
        ChangeOperation::Update => c.after is Some,
        ChangeOperation::Move => c.after is Some,
        ChangeOperation::Delete => c.after is None,
    }
}

proof fn lemma_firewall_fits(changes: Seq<FirewallPlannedChangeView>, objects: Seq<FirewallObjectView>, i: int, k: int)
    requires
        0 <= i <= k < changes.len(),
        firewall_changes_match(changes, objects, i) is Ok,
    ensures
        fits_firewall(changes[k], objects),
        !crate::firewall::touched_before(changes, k),
    decreases k - i,
{
    if i < k {
        lemma_firewall_fits(changes, objects, i + 1, k);
    } else {
        let c = changes[k];
        let o = firewall_subject(c);
        lemma_firewall_at(objects, o.kind(), o.id(), 0);
    }
}

/// A plan for the firewall is taken only where it is fresh: each change fits what is there, and no two changes are
/// about one object.
pub proof fn law_firewall_plan_is_fresh(
    changes: Seq<FirewallPlannedChangeView>,
    objects: Seq<FirewallObjectView>,
    k: int,
    l: int,
)
    requires
        firewall_plan_matches(changes, objects) is Ok,
    ensures
        0 < changes.len() <= crate::firewall::MAX_CHANGES,
        0 <= k < changes.len() ==> fits_firewall(changes[k], objects),
        0 <= l < k < changes.len() ==> !(firewall_subject(changes[l]).kind() == firewall_subject(changes[k]).kind()
            && firewall_subject(changes[l]).id() == firewall_subject(changes[k]).id()),
{
    if 0 <= k < changes.len() {
        lemma_firewall_fits(changes, objects, 0, k);
        if 0 <= l < k {
            lemma_firewall_fits(changes, objects, 0, l);
            assert(!crate::firewall::same_subject(changes[l], changes[k]));
        }
    }
}

/// The object that a change is about: what it leads to, or else what it removes.
pub open spec fn network_subject(c: NetworkPlannedChangeView) -> NetworkObjectView {
    match c.after {
        Some(o) => o,
        None => c.before->Some_0,
    }
}

/// Whether a change of the network fits what is there: it makes what is not there, or changes or removes exactly what
/// is there, and its digests are those of its two sides.
pub open spec fn fits_network(c: NetworkPlannedChangeView, objects: Seq<NetworkObjectView>) -> bool {
    &&& c.before is Some || c.after is Some
    &&& c.before matches Some(o) ==> objects.contains(o) && c.before_checks.digest is Some && c.diff.before_digest
        == c.before_checks.digest
    &&& c.before is None ==> c.diff.before_digest is None
    &&& c.after is Some ==> c.after_checks.digest is Some && c.diff.after_digest == c.after_checks.digest
    &&& c.after is None ==> c.diff.after_digest is None
    &&& c.diff.object.expected_version == c.diff.before_digest
    &&& c.diff.object.kind == network_subject(c).kind()
    &&& c.diff.object.id == network_subject(c).id()
    &&& c.diff.object.ownership == network_subject(c).ownership()
    &&& match c.diff.operation {
        ChangeOperation::Create => c.before is None && c.after is Some && forall|j: int|
            0 <= j < objects.len() ==> !((#[trigger] objects[j]).kind() == c.diff.object.kind && objects[j].id()
                == c.diff.object.id),
        ChangeOperation::Update => c.after is Some,
        ChangeOperation::Move => c.after is Some,
        ChangeOperation::Delete => c.after is None,
    }
}

proof fn lemma_network_fits(changes: Seq<NetworkPlannedChangeView>, objects: Seq<NetworkObjectView>, i: int, k: int)
    requires
        0 <= i <= k < changes.len(),
        network_changes_match(changes, objects, i) is Ok,
    ensures
        fits_network(changes[k], objects),
        !crate::network_stage::touched_before(changes, k),
    decreases k - i,
{
    if i < k {
        lemma_network_fits(changes, objects, i + 1, k);
    } else {
        let c = changes[k];
        let o = network_subject(c);
        lemma_network_at(objects, o.kind(), o.id(), 0);
    }
}

/// A plan for the network is taken only where it is fresh: each change fits what is there, and no two changes are about
/// one object.
pub proof fn law_network_plan_is_fresh(
    changes: Seq<NetworkPlannedChangeView>,
    objects: Seq<NetworkObjectView>,
    k: int,
    l: int,
)
    requires
        network_plan_matches(changes, objects) is Ok,
    ensures
        0 < changes.len() <= crate::network_stage::MAX_CHANGES,
        0 <= k < changes.len() ==> fits_network(changes[k], objects),
        0 <= l < k < changes.len() ==> !(network_subject(changes[l]).kind() == network_subject(changes[k]).kind()
            && network_subject(changes[l]).id() == network_subject(changes[k]).id()),
{
    if 0 <= k < changes.len() {
        lemma_network_fits(changes, objects, 0, k);
        if 0 <= l < k {
            lemma_network_fits(changes, objects, 0, l);
            assert(!crate::network_stage::same_subject(changes[l], changes[k]));
        }
    }
}

/// The command that gives an option of a radio a value, where there is one.
pub open spec fn radio_line(section: Seq<char>, name: Seq<char>, value: Option<Seq<char>>) -> Seq<char> {
    match value {
        Some(v) => set_line("wireless"@, section, name, v),
        None => Seq::empty(),
    }
}

/// The text of a band, under the option that gives it.
pub open spec fn band_word(encoding: OpenWrtWirelessBandEncoding, band: WirelessBand) -> Seq<char> {
    match encoding {
        OpenWrtWirelessBandEncoding::Band => match band {
            WirelessBand::Ghz2 => "2g"@,
            WirelessBand::Ghz5 => "5g"@,
            WirelessBand::Ghz6 => "6g"@,
        },
        OpenWrtWirelessBandEncoding::HwMode => match band {
            WirelessBand::Ghz2 => "11g"@,
            _ => "11a"@,
        },
    }
}

/// The commands of a changed radio: what can change is removed, and then whether it is disabled, its band, channel,
/// mode, country and power are set. A band that stays keeps its text.
pub open spec fn radio_text(
    b: OpenWrtWirelessObjectBindingView,
    before: WirelessRadioConfigView,
    after: WirelessRadioConfigView,
) -> Seq<char> {
    clear_lines("wireless"@, b.section, b.present_options, mutable_options()) + radio_line(
        b.section,
        "disabled"@,
        Some(if after.enabled {
            "0"@
        } else {
            "1"@
        }),
    ) + radio_line(
        b.section,
        match b.band_encoding {
            OpenWrtWirelessBandEncoding::Band => "band"@,
            OpenWrtWirelessBandEncoding::HwMode => "hwmode"@,
        },
        Some(if before.band == after.band {
            b.band_value
        } else {
            band_word(b.band_encoding, after.band)
        }),
    ) + radio_line(b.section, "channel"@, Some(match after.channel {
        WirelessChannel::Auto => "auto"@,
        WirelessChannel::Fixed { channel } => decimal(channel as nat),
    })) + radio_line(b.section, "htmode"@, mode_text(b, before, after)->Ok_0) + radio_line(
        b.section,
        "country"@,
        after.country,
    ) + radio_line(b.section, "txpower"@, match after.tx_power_dbm {
        Some(n) => Some(decimal(n as nat)),
        None => None,
    })
}

proof fn lemma_with_option(t: Seq<char>, section: Seq<char>, name: Seq<char>, value: Option<Seq<char>>)
    requires
        with_option(Ok(t), section, name, value) is Ok,
    ensures
        with_option(Ok(t), section, name, value)->Ok_0 == t + radio_line(section, name, value),
{
    if let Some(v) = value {
        lemma_assign("wireless"@, section, name, v);
    } else {
        assert(t + radio_line(section, name, value) =~= t);
    }
}

proof fn lemma_eight(
    t: Seq<char>,
    a: Seq<char>,
    b: Seq<char>,
    c: Seq<char>,
    d: Seq<char>,
    e: Seq<char>,
    f: Seq<char>,
    g: Seq<char>,
)
    ensures
        t + a + b + c + d + e + f + g == t + (a + b + c + d + e + f + g),
{
    assert(t + a + b + c + d + e + f + g =~= t + (a + b + c + d + e + f + g));
}

/// An update of a radio is made of the commands for what changes.
pub proof fn law_radio_update_sets_what_changes(
    batch: Seq<char>,
    b: OpenWrtWirelessObjectBindingView,
    before: WirelessRadioConfigView,
    after: WirelessRadioConfigView,
)
    requires
        radio_updated(batch, b, before, after) is Ok,
    ensures
        mode_text(b, before, after) is Ok,
        radio_updated(batch, b, before, after)->Ok_0 == batch + radio_text(b, before, after),
        b.band_encoding == OpenWrtWirelessBandEncoding::HwMode ==> after.band != WirelessBand::Ghz6,
{
    law_known_options_are_cleared(batch, "wireless"@, b.section, b.present_options, mutable_options());
    let a0 = clear_lines("wireless"@, b.section, b.present_options, mutable_options());
    let off = Some(if after.enabled {
        "0"@
    } else {
        "1"@
    });
    let key = match b.band_encoding {
        OpenWrtWirelessBandEncoding::Band => "band"@,
        OpenWrtWirelessBandEncoding::HwMode => "hwmode"@,
    };
    let band = Some(
        if before.band == after.band {
            b.band_value
        } else {
            band_word(b.band_encoding, after.band)
        },
    );
    let channel = Some(crate::wireless_openwrt::channel_text(after.channel));
    let mode = mode_text(b, before, after)->Ok_0;
    let power = crate::wireless_openwrt::power_text(after.tx_power_dbm);
    let t0 = batch + a0;
    lemma_with_option(t0, b.section, "disabled"@, off);
    let t1 = t0 + radio_line(b.section, "disabled"@, off);
    lemma_with_option(t1, b.section, key, band);
    let t2 = t1 + radio_line(b.section, key, band);
    lemma_with_option(t2, b.section, "channel"@, channel);
    let t3 = t2 + radio_line(b.section, "channel"@, channel);
    lemma_with_option(t3, b.section, "htmode"@, mode);
    let t4 = t3 + radio_line(b.section, "htmode"@, mode);
    lemma_with_option(t4, b.section, "country"@, after.country);
    let t5 = t4 + radio_line(b.section, "country"@, after.country);
    lemma_with_option(t5, b.section, "txpower"@, power);
    lemma_eight(
        batch,
        a0,
        radio_line(b.section, "disabled"@, off),
        radio_line(b.section, key, band),
        radio_line(b.section, "channel"@, channel),
        radio_line(b.section, "htmode"@, mode),
        radio_line(b.section, "country"@, after.country),
        radio_line(b.section, "txpower"@, power),
    );
}

} // verus!
