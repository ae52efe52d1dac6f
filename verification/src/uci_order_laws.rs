//! Only the order of the section lines of a listing counts.

use vstd::prelude::*;
use vstd::seq_lib::group_to_multiset_ensures;

use crate::firewall_error::FirewallRenderErrorView;
use crate::firewall_uci::{
    is_identifier, is_package, law_parsed_package, lemma_option_from, lemma_section_from, line_parts,
    option_from, option_step, options_from, package_sections, raw_values, rfind_below, section_from,
    section_step, sections_from, with_option, UciOptionView, UciSectionView, MAX_UCI_LINE_BYTES,
    MAX_UCI_OPTIONS, MAX_UCI_SHOW_BYTES,
};
use crate::isolation_laws::{is_inline, is_one_line};
use crate::net_laws::lemma_find_at;
use crate::restore_laws::{is_whole, lemma_lines_append, lemma_lines_one};
use crate::text::{
    byte_len, chomp, find_from, is_blank, is_white, lemma_find_from, lines, lines_from, trim, white_end,
    white_start,
};
use vstd::utf8::*;

verus! {

/// What a line sets: the section, the option and its values.
pub struct SettingView {
    pub selector: Seq<char>,
    pub name: Seq<char>,
    pub values: Seq<Seq<char>>,
}

/// What a line sets, whatever the sections are: `None` where it cannot be read, nothing where it is
/// blank or opens a section.
pub open spec fn setting(line: Seq<char>, package: Seq<char>) -> Option<Option<SettingView>> {
    if is_blank(line) {
        Some(None)
    } else {
        match line_parts(line, package) {
            None => None,
            Some((key, raw)) => {
                let k = rfind_below(key, '.', key.len() as int);
                if k < 0 {
                    Some(None)
                } else if !is_identifier(key.skip(k + 1)) {
                    None
                } else {
                    match raw_values(raw) {
                        Err(_) => None,
                        Ok(v) => Some(
                            Some(
                                SettingView {
                                    selector: key.take(k),
                                    name: key.skip(k + 1),
                                    values: v,
                                },
                            ),
                        ),
                    }
                }
            },
        }
    }
}

/// Whether sections have room for a setting.
pub open spec fn fits(acc: Seq<UciSectionView>, s: SettingView) -> bool {
    let at = section_from(acc, s.selector, 0);
    at < acc.len() && acc[at].options.len() < MAX_UCI_OPTIONS && !acc[at].has(s.name)
}

/// Sections with a setting.
pub open spec fn put(acc: Seq<UciSectionView>, s: SettingView) -> Seq<UciSectionView> {
    let at = section_from(acc, s.selector, 0);
    acc.update(at, with_option(acc[at], s.name, s.values))
}

/// Sections after a line, where it is accepted.
#[verifier::opaque]
pub open spec fn taken(
    acc: Seq<UciSectionView>,
    line: Seq<char>,
    package: Seq<char>,
) -> Option<Seq<UciSectionView>> {
    match setting(line, package) {
        None => None,
        Some(None) => Some(acc),
        Some(Some(s)) => if fits(acc, s) {
            Some(put(acc, s))
        } else {
            None
        },
    }
}

proof fn lemma_taken(acc: Seq<UciSectionView>, line: Seq<char>, package: Seq<char>)
    ensures
        match option_step(acc, line, package) {
            Ok(t) => taken(acc, line, package) == Some(t),
            Err(_) => taken(acc, line, package) is None,
        },
{
    reveal(taken);
    if !is_blank(line) {
        if let Some((key, raw)) = line_parts(line, package) {
            let k = rfind_below(key, '.', key.len() as int);
            if k >= 0 {
                lemma_section_from(acc, key.take(k), 0);
            }
        }
    }
}

/// Sections after lines, where all of them are accepted.
pub open spec fn all_taken(
    acc: Seq<UciSectionView>,
    all: Seq<Seq<char>>,
    package: Seq<char>,
) -> Option<Seq<UciSectionView>>
    decreases all.len(),
{
    if all.len() == 0 {
        Some(acc)
    } else {
        match taken(acc, all[0], package) {
            None => None,
            Some(next) => all_taken(next, all.skip(1), package),
        }
    }
}

proof fn lemma_all_taken(
    acc: Seq<UciSectionView>,
    all: Seq<Seq<char>>,
    package: Seq<char>,
    i: int,
)
    requires
        0 <= i <= all.len(),
    ensures
        match options_from(acc, all, package, i) {
            Ok(t) => all_taken(acc, all.skip(i), package) == Some(t),
            Err(_) => all_taken(acc, all.skip(i), package) is None,
        },
    decreases all.len() - i,
{
    if i < all.len() {
        lemma_taken(acc, all[i], package);
        assert(all.skip(i)[0] == all[i]);
        assert(all.skip(i).skip(1) =~= all.skip(i + 1));
        if let Ok(next) = option_step(acc, all[i], package) {
            lemma_all_taken(next, all, package, i + 1);
        }
    }
}

/// Whether a section is another one but for the order of its options.
pub open spec fn is_alike(a: UciSectionView, b: UciSectionView) -> bool {
    a.selector == b.selector && a.section_type == b.section_type && a.order == b.order
        && a.options.to_multiset() == b.options.to_multiset()
}

/// Whether sections are the same but for the order of their options.
pub open spec fn all_alike(a: Seq<UciSectionView>, b: Seq<UciSectionView>) -> bool {
    a.len() == b.len() && forall|i: int| 0 <= i < a.len() ==> is_alike(#[trigger] a[i], b[i])
}

proof fn lemma_alike_section(a: Seq<UciSectionView>, b: Seq<UciSectionView>, selector: Seq<char>, i: int)
    requires
        all_alike(a, b),
        0 <= i <= a.len(),
    ensures
        section_from(a, selector, i) == section_from(b, selector, i),
    decreases a.len() - i,
{
    if i < a.len() {
        assert(is_alike(a[i], b[i]));
        lemma_alike_section(a, b, selector, i + 1);
    }
}

proof fn lemma_alike_has(a: UciSectionView, b: UciSectionView, name: Seq<char>)
    requires
        is_alike(a, b),
        a.has(name),
    ensures
        b.has(name),
{
    broadcast use group_to_multiset_ensures;

    lemma_option_from(a.options, name, 0);
    lemma_option_from(b.options, name, 0);
    let i = choose|i: int| 0 <= i < a.options.len() && (#[trigger] a.options[i]).name == name;
    let o = a.options[i];
    assert(a.options.contains(o));
    assert(a.options.to_multiset().count(o) > 0);
    assert(b.options.contains(o));
    let j = choose|j: int| 0 <= j < b.options.len() && b.options[j] == o;
    assert(b.options[j].name == name);
}

proof fn lemma_alike_put(a: UciSectionView, b: UciSectionView, name: Seq<char>, v: Seq<Seq<char>>)
    requires
        is_alike(a, b),
    ensures
        is_alike(with_option(a, name, v), with_option(b, name, v)),
{
    broadcast use group_to_multiset_ensures;

    let o = UciOptionView { name, values: v };
    assert(a.options.push(o).to_multiset() == a.options.to_multiset().insert(o));
    assert(b.options.push(o).to_multiset() == b.options.to_multiset().insert(o));
}

proof fn lemma_alike_len(a: UciSectionView, b: UciSectionView)
    requires
        is_alike(a, b),
    ensures
        a.options.len() == b.options.len(),
{
    broadcast use group_to_multiset_ensures;

    assert(a.options.to_multiset().len() == b.options.to_multiset().len());
}

/// A line that sections accept, sections that are alike accept too.
proof fn lemma_alike_taken(
    a: Seq<UciSectionView>,
    b: Seq<UciSectionView>,
    line: Seq<char>,
    package: Seq<char>,
)
    requires
        all_alike(a, b),
        taken(a, line, package) is Some,
    ensures
        taken(b, line, package) is Some,
        all_alike(taken(a, line, package)->Some_0, taken(b, line, package)->Some_0),
{
    reveal(taken);
    if let Some(Some(s)) = setting(line, package) {
        lemma_alike_section(a, b, s.selector, 0);
        lemma_section_from(a, s.selector, 0);
        let at = section_from(a, s.selector, 0);
        assert(is_alike(a[at], b[at]));
        lemma_alike_len(a[at], b[at]);
        assert(!b[at].has(s.name)) by {
            if b[at].has(s.name) {
                lemma_alike_has(b[at], a[at], s.name);
            }
        }
        lemma_alike_put(a[at], b[at], s.name, s.values);
        let x = put(a, s);
        let y = put(b, s);
        assert forall|i: int| 0 <= i < x.len() implies is_alike(#[trigger] x[i], y[i]) by {
            assert(is_alike(a[i], b[i]));
        }
    }
}

proof fn lemma_alike_all(
    a: Seq<UciSectionView>,
    b: Seq<UciSectionView>,
    all: Seq<Seq<char>>,
    package: Seq<char>,
)
    requires
        all_alike(a, b),
        all_taken(a, all, package) is Some,
    ensures
        all_taken(b, all, package) is Some,
        all_alike(all_taken(a, all, package)->Some_0, all_taken(b, all, package)->Some_0),
    decreases all.len(),
{
    if all.len() > 0 {
        lemma_alike_taken(a, b, all[0], package);
        lemma_alike_all(
            taken(a, all[0], package)->Some_0,
            taken(b, all[0], package)->Some_0,
            all.skip(1),
            package,
        );
    }
}

/// A setting leaves the sections where they are.
proof fn lemma_put_sections(a: Seq<UciSectionView>, s: SettingView, selector: Seq<char>, i: int)
    requires
        0 <= i <= a.len(),
        fits(a, s),
    ensures
        section_from(put(a, s), selector, i) == section_from(a, selector, i),
    decreases a.len() - i,
{
    lemma_section_from(a, s.selector, 0);
    if i < a.len() {
        assert(put(a, s)[i].selector == a[i].selector);
        lemma_put_sections(a, s, selector, i + 1);
    }
}

/// An option is found behind a further one if and only if it was found before or is that one.
proof fn lemma_has_push(a: UciSectionView, name: Seq<char>, v: Seq<Seq<char>>, other: Seq<char>)
    ensures
        with_option(a, name, v).has(other) == (a.has(other) || name == other),
{
    let b = with_option(a, name, v);
    lemma_option_from(a.options, other, 0);
    lemma_option_from(b.options, other, 0);
    if a.has(other) {
        let i = choose|i: int| 0 <= i < a.options.len() && (#[trigger] a.options[i]).name == other;
        assert(b.options[i] == a.options[i]);
    } else if name == other {
        assert(b.options[a.options.len() as int].name == other);
    } else {
        assert forall|j: int| 0 <= j < b.options.len() implies (#[trigger] b.options[j]).name
            != other by {
            if j < a.options.len() {
                assert(b.options[j] == a.options[j]);
            }
        }
    }
}

proof fn lemma_pushes(a: Seq<UciOptionView>, x: UciOptionView, y: UciOptionView)
    ensures
        a.push(x).push(y).to_multiset() == a.push(y).push(x).to_multiset(),
{
    broadcast use group_to_multiset_ensures;

    let m = a.to_multiset();
    assert(a.push(x).to_multiset() == m.insert(x));
    assert(a.push(y).to_multiset() == m.insert(y));
    assert(a.push(x).push(y).to_multiset() == m.insert(x).insert(y));
    assert(a.push(y).push(x).to_multiset() == m.insert(y).insert(x));
    assert(m.insert(x).insert(y) =~= m.insert(y).insert(x));
}

/// Two settings may come in either order.
proof fn lemma_put_swap(a: Seq<UciSectionView>, x: SettingView, y: SettingView)
    requires
        fits(a, x),
        fits(put(a, x), y),
    ensures
        fits(a, y),
        fits(put(a, y), x),
        all_alike(put(put(a, x), y), put(put(a, y), x)),
{
    let i = section_from(a, x.selector, 0);
    let j = section_from(a, y.selector, 0);
    lemma_section_from(a, x.selector, 0);
    lemma_section_from(a, y.selector, 0);
    lemma_put_sections(a, x, y.selector, 0);
    let ax = put(a, x);
    lemma_has_push(a[i], x.name, x.values, y.name);
    if i != j {
        assert(ax[j] == a[j]);
    }
    assert(fits(a, y));
    lemma_put_sections(a, y, x.selector, 0);
    let ay = put(a, y);
    lemma_has_push(a[j], y.name, y.values, x.name);
    if i != j {
        assert(ay[i] == a[i]);
    }
    assert(fits(ay, x));
    let p = put(ax, y);
    let q = put(ay, x);
    assert forall|k: int| 0 <= k < p.len() implies is_alike(#[trigger] p[k], q[k]) by {
        if i == j && k == i {
            lemma_pushes(
                a[k].options,
                UciOptionView { name: x.name, values: x.values },
                UciOptionView { name: y.name, values: y.values },
            );
        }
    }
}

proof fn lemma_taken_swap(
    a: Seq<UciSectionView>,
    x: Seq<char>,
    y: Seq<char>,
    package: Seq<char>,
)
    requires
        taken(a, x, package) is Some,
        taken(taken(a, x, package)->Some_0, y, package) is Some,
    ensures
        taken(a, y, package) is Some,
        taken(taken(a, y, package)->Some_0, x, package) is Some,
        all_alike(
            taken(taken(a, x, package)->Some_0, y, package)->Some_0,
            taken(taken(a, y, package)->Some_0, x, package)->Some_0,
        ),
{
    reveal(taken);
    if let Some(Some(s)) = setting(x, package) {
        if let Some(Some(t)) = setting(y, package) {
            lemma_put_swap(a, s, t);
        }
    }
}

proof fn lemma_alike_chain(a: Seq<UciSectionView>, b: Seq<UciSectionView>, c: Seq<UciSectionView>)
    requires
        all_alike(a, b),
        all_alike(b, c),
    ensures
        all_alike(a, c),
{
    assert forall|i: int| 0 <= i < a.len() implies is_alike(#[trigger] a[i], c[i]) by {
        assert(is_alike(b[i], c[i]));
    }
}

/// A line may come first.
proof fn lemma_line_first(
    a: Seq<UciSectionView>,
    all: Seq<Seq<char>>,
    i: int,
    package: Seq<char>,
)
    requires
        0 <= i < all.len(),
        all_taken(a, all, package) is Some,
    ensures
        all_taken(a, seq![all[i]] + all.remove(i), package) is Some,
        all_alike(
            all_taken(a, all, package)->Some_0,
            all_taken(a, seq![all[i]] + all.remove(i), package)->Some_0,
        ),
    decreases i,
{
    let x = all[i];
    let moved = seq![x] + all.remove(i);
    if i == 0 {
        assert(moved =~= all);
    } else {
        let y = all[0];
        let rest = all.skip(1);
        let a1 = taken(a, y, package)->Some_0;
        lemma_line_first(a1, rest, i - 1, package);
        let tail = rest.remove(i - 1);
        let front = seq![x] + tail;
        assert(rest[i - 1] == x);
        assert(front[0] == x);
        assert(front.skip(1) =~= tail);
        let a2 = taken(a1, x, package)->Some_0;
        lemma_taken_swap(a, y, x, package);
        let b1 = taken(a, x, package)->Some_0;
        let b2 = taken(b1, y, package)->Some_0;
        lemma_alike_all(a2, b2, tail, package);
        assert(moved[0] == x);
        assert(moved.skip(1) =~= seq![y] + tail);
        let second = seq![y] + tail;
        assert(second[0] == y);
        assert(second.skip(1) =~= tail);
        assert(all_taken(b1, second, package) == all_taken(b2, tail, package));
        assert(all_taken(a, moved, package) == all_taken(b1, second, package));
        assert(all_taken(a1, front, package) == all_taken(a2, tail, package));
        lemma_alike_chain(
            all_taken(a, all, package)->Some_0,
            all_taken(a2, tail, package)->Some_0,
            all_taken(b2, tail, package)->Some_0,
        );
    }
}

/// Lines that set options may come in any order.
proof fn lemma_any_order(
    a: Seq<UciSectionView>,
    u: Seq<Seq<char>>,
    p: Seq<Seq<char>>,
    package: Seq<char>,
)
    requires
        u.to_multiset() == p.to_multiset(),
        all_taken(a, u, package) is Some,
    ensures
        all_taken(a, p, package) is Some,
        all_alike(all_taken(a, u, package)->Some_0, all_taken(a, p, package)->Some_0),
    decreases p.len(),
{
    broadcast use group_to_multiset_ensures;

    assert(u.len() == u.to_multiset().len());
    assert(p.len() == p.to_multiset().len());
    if p.len() > 0 {
        let x = p[0];
        assert(p.contains(x));
        assert(p.to_multiset().count(x) > 0);
        assert(u.contains(x));
        let i = choose|i: int| 0 <= i < u.len() && u[i] == x;
        lemma_line_first(a, u, i, package);
        let rest = u.remove(i);
        let moved = seq![x] + rest;
        assert(moved[0] == x);
        assert(moved.skip(1) =~= rest);
        assert(p.remove(0) =~= p.skip(1));
        assert(rest.to_multiset() == u.to_multiset().remove(x));
        assert(p.remove(0).to_multiset() == p.to_multiset().remove(x));
        let next = taken(a, x, package)->Some_0;
        lemma_any_order(next, rest, p.skip(1), package);
        lemma_alike_chain(
            all_taken(a, u, package)->Some_0,
            all_taken(a, moved, package)->Some_0,
            all_taken(a, p, package)->Some_0,
        );
    } else {
        assert(u =~= p);
    }
}

/// Whether a line opens a section.
pub open spec fn is_section_line(line: Seq<char>, package: Seq<char>) -> bool {
    !is_blank(line) && (line_parts(line, package) matches Some((key, _)) ==> !key.contains('.'))
}

/// The lines that open sections, in their order, and those that cannot be read.
pub open spec fn section_lines(all: Seq<Seq<char>>, package: Seq<char>) -> Seq<Seq<char>>
    decreases all.len(),
{
    if all.len() == 0 {
        all
    } else if is_section_line(all[0], package) {
        seq![all[0]] + section_lines(all.skip(1), package)
    } else {
        section_lines(all.skip(1), package)
    }
}

/// The section lines alone open the sections.
proof fn lemma_section_lines(
    acc: Seq<UciSectionView>,
    all: Seq<Seq<char>>,
    package: Seq<char>,
    dashes: bool,
    i: int,
)
    requires
        0 <= i <= all.len(),
    ensures
        sections_from(acc, all, package, dashes, i) == sections_from(
            acc,
            section_lines(all.skip(i), package),
            package,
            dashes,
            0,
        ),
    decreases all.len() - i,
{
    let rest = all.skip(i);
    if i < all.len() {
        assert(rest[0] == all[i]);
        assert(rest.skip(1) =~= all.skip(i + 1));
        let heads = section_lines(rest, package);
        let tail = section_lines(all.skip(i + 1), package);
        if is_section_line(all[i], package) {
            assert(heads == seq![all[i]] + tail);
            assert(heads[0] == all[i]);
            assert(heads.skip(1) =~= tail);
            if let Ok(next) = section_step(acc, all[i], package, dashes) {
                lemma_section_lines(next, all, package, dashes, i + 1);
                lemma_sections_shift(next, heads, package, dashes, 1);
            }
        } else {
            assert(section_step(acc, all[i], package, dashes) == Ok::<
                Seq<UciSectionView>,
                FirewallRenderErrorView,
            >(acc));
            lemma_section_lines(acc, all, package, dashes, i + 1);
        }
    }
}

proof fn lemma_sections_shift(
    acc: Seq<UciSectionView>,
    all: Seq<Seq<char>>,
    package: Seq<char>,
    dashes: bool,
    i: int,
)
    requires
        1 <= i <= all.len(),
    ensures
        sections_from(acc, all, package, dashes, i) == sections_from(
            acc,
            all.skip(1),
            package,
            dashes,
            i - 1,
        ),
    decreases all.len() - i,
{
    if i < all.len() {
        assert(all.skip(1)[i - 1] == all[i]);
        if let Ok(next) = section_step(acc, all[i], package, dashes) {
            lemma_sections_shift(next, all, package, dashes, i + 1);
        }
    }
}

/// Sections that are alike give the same values of every option.
proof fn lemma_alike_get(a: UciSectionView, b: UciSectionView, name: Seq<char>)
    requires
        is_alike(a, b),
        forall|i: int, j: int|
            0 <= i < j < a.options.len() ==> (#[trigger] a.options[i]).name != (
            #[trigger] a.options[j]).name,
    ensures
        a.get(name) == b.get(name),
{
    broadcast use group_to_multiset_ensures;

    lemma_option_at(a.options, name, 0);
    lemma_option_at(b.options, name, 0);
    if b.get(name) is Some {
        lemma_alike_has(b, a, name);
        let i = choose|i: int|
            0 <= i < a.options.len() && (#[trigger] a.options[i]).name == name && a.get(name)
                == Some(a.options[i].values);
        let j = choose|j: int|
            0 <= j < b.options.len() && (#[trigger] b.options[j]).name == name && b.get(name)
                == Some(b.options[j].values);
        let o = b.options[j];
        assert(b.options.contains(o));
        assert(b.options.to_multiset().count(o) > 0);
        assert(a.options.contains(o));
        let k = choose|k: int| 0 <= k < a.options.len() && a.options[k] == o;
        assert(a.options[k].name == a.options[i].name);
    } else if a.get(name) is Some {
        lemma_alike_has(a, b, name);
    }
}

proof fn lemma_option_at(options: Seq<UciOptionView>, name: Seq<char>, i: int)
    requires
        0 <= i <= options.len(),
    ensures
        option_from(options, name, i) is Some ==> exists|j: int|
            i <= j < options.len() && (#[trigger] options[j]).name == name && option_from(
                options,
                name,
                i,
            ) == Some(options[j].values),
    decreases options.len() - i,
{
    if i < options.len() && options[i].name != name {
        lemma_option_at(options, name, i + 1);
    }
}

/// Lines that are permuted, with the section lines in their order, are read as the same sections.
proof fn lemma_lines_alike(
    u: Seq<Seq<char>>,
    p: Seq<Seq<char>>,
    package: Seq<char>,
    dashes: bool,
) -> (opened: Seq<UciSectionView>)
    requires
        sections_from(Seq::empty(), u, package, dashes, 0) is Ok,
        options_from(
            sections_from(Seq::empty(), u, package, dashes, 0)->Ok_0,
            u,
            package,
            0,
        ) is Ok,
        p.to_multiset() == u.to_multiset(),
        section_lines(p, package) == section_lines(u, package),
    ensures
        sections_from(Seq::empty(), u, package, dashes, 0)->Ok_0 == opened,
        sections_from(Seq::empty(), p, package, dashes, 0) == Ok::<
            Seq<UciSectionView>,
            FirewallRenderErrorView,
        >(opened),
        options_from(opened, p, package, 0) is Ok,
        all_alike(
            options_from(opened, u, package, 0)->Ok_0,
            options_from(opened, p, package, 0)->Ok_0,
        ),
{
    let none = Seq::<UciSectionView>::empty();
    assert(u.skip(0) =~= u);
    assert(p.skip(0) =~= p);
    lemma_section_lines(none, u, package, dashes, 0);
    lemma_section_lines(none, p, package, dashes, 0);
    let opened = sections_from(none, u, package, dashes, 0)->Ok_0;
    lemma_all_taken(opened, u, package, 0);
    lemma_all_taken(opened, p, package, 0);
    lemma_any_order(opened, u, p, package);
    opened
}

/// Whether two readings give the same sections, with the same values of every option. The options of a
/// section are kept in the order of their lines; but for that order they are the same.
pub open spec fn same_reading(s: Seq<UciSectionView>, t: Seq<UciSectionView>) -> bool {
    all_alike(s, t) && forall|i: int, name: Seq<char>|
        0 <= i < s.len() ==> (#[trigger] t[i].get(name)) == s[i].get(name)
}

proof fn lemma_same_reading(s: Seq<UciSectionView>, t: Seq<UciSectionView>)
    requires
        is_package(s),
        all_alike(s, t),
    ensures
        same_reading(s, t),
{
    assert forall|i: int, name: Seq<char>| 0 <= i < s.len() implies (#[trigger] t[i].get(name))
        == s[i].get(name) by {
        assert(is_alike(s[i], t[i]));
        lemma_alike_get(s[i], t[i], name);
    }
}

/// A line of a permuted listing is one of the listing.
proof fn lemma_member(u: Seq<Seq<char>>, p: Seq<Seq<char>>, i: int) -> (j: int)
    requires
        p.to_multiset() == u.to_multiset(),
        0 <= i < p.len(),
    ensures
        0 <= j < u.len(),
        u[j] == p[i],
{
    broadcast use group_to_multiset_ensures;

    let x = p[i];
    assert(p.contains(x));
    assert(p.to_multiset().count(x) > 0);
    assert(u.contains(x));
    choose|j: int| 0 <= j < u.len() && u[j] == x
}

proof fn lemma_as_many(u: Seq<Seq<char>>, p: Seq<Seq<char>>)
    requires
        p.to_multiset() == u.to_multiset(),
    ensures
        p.len() == u.len(),
{
    broadcast use group_to_multiset_ensures;

    assert(u.len() == u.to_multiset().len());
    assert(p.len() == p.to_multiset().len());
}

/// Only the order of the section lines of a listing counts: with its other lines anywhere, before the
/// line that opens their section too, a text of the same lines that is within the size limit is read as
/// the same sections, with the same values of every option.
pub proof fn law_option_lines_may_stand_anywhere(
    listing: Seq<char>,
    permuted: Seq<char>,
    package: Seq<char>,
    dashes: bool,
)
    requires
        package_sections(listing, package, dashes) is Ok,
        lines(permuted).to_multiset() == lines(listing).to_multiset(),
        section_lines(lines(permuted), package) == section_lines(lines(listing), package),
        byte_len(permuted) <= MAX_UCI_SHOW_BYTES,
    ensures
        package_sections(permuted, package, dashes) is Ok,
        same_reading(
            package_sections(listing, package, dashes)->Ok_0,
            package_sections(permuted, package, dashes)->Ok_0,
        ),
{
    let u = lines(listing);
    let p = lines(permuted);
    lemma_as_many(u, p);
    assert forall|i: int| 0 <= i < p.len() implies byte_len(#[trigger] p[i])
        <= MAX_UCI_LINE_BYTES by {
        let j = lemma_member(u, p, i);
        assert(byte_len(u[j]) <= MAX_UCI_LINE_BYTES);
    }
    let opened = lemma_lines_alike(u, p, package, dashes);
    law_parsed_package(listing, package, dashes);
    lemma_same_reading(
        package_sections(listing, package, dashes)->Ok_0,
        package_sections(permuted, package, dashes)->Ok_0,
    );
}

/// Lines, each with a line break behind it.
pub open spec fn listed(l: Seq<Seq<char>>) -> Seq<char>
    decreases l.len(),
{
    if l.len() == 0 {
        Seq::empty()
    } else {
        l[0] + "\n"@ + listed(l.skip(1))
    }
}

/// The number of bytes of lines, with a line break behind each.
spec fn size(l: Seq<Seq<char>>) -> nat
    decreases l.len(),
{
    if l.len() == 0 {
        0
    } else {
        byte_len(l[0]) + 1 + size(l.skip(1))
    }
}

proof fn lemma_bytes_add(a: Seq<char>, b: Seq<char>)
    ensures
        byte_len(a + b) == byte_len(a) + byte_len(b),
    decreases a.len(),
{
    if a.len() == 0 {
        assert(a + b =~= b);
    } else {
        lemma_bytes_add(a.drop_first(), b);
        assert((a + b).drop_first() =~= a.drop_first() + b);
        assert((a + b)[0] == a[0]);
    }
}

proof fn lemma_break_bytes()
    ensures
        byte_len("\n"@) == 1,
{
    reveal_strlit("\n");
    reveal_with_fuel(encode_utf8, 2);
    assert("\n"@.drop_first() =~= Seq::empty());
    assert("\n"@[0] as u32 == 0xa);
}

proof fn lemma_chomp_bytes(s: Seq<char>)
    ensures
        byte_len(chomp(s)) <= byte_len(s),
{
    if s.len() > 0 && s.last() == '\r' {
        assert(s =~= s.drop_last() + seq![s.last()]);
        lemma_bytes_add(s.drop_last(), seq![s.last()]);
    }
}

proof fn lemma_listed_bytes(l: Seq<Seq<char>>)
    ensures
        byte_len(listed(l)) == size(l),
    decreases l.len(),
{
    if l.len() > 0 {
        lemma_listed_bytes(l.skip(1));
        lemma_break_bytes();
        lemma_bytes_add(l[0], "\n"@);
        lemma_bytes_add(l[0] + "\n"@, listed(l.skip(1)));
    }
}

proof fn lemma_size_remove(l: Seq<Seq<char>>, i: int)
    requires
        0 <= i < l.len(),
    ensures
        size(l) == size(l.remove(i)) + byte_len(l[i]) + 1,
    decreases i,
{
    if i == 0 {
        assert(l.remove(0) =~= l.skip(1));
    } else {
        lemma_size_remove(l.skip(1), i - 1);
        assert(l.remove(i)[0] == l[0]);
        assert(l.remove(i).skip(1) =~= l.skip(1).remove(i - 1));
        assert(l.skip(1)[i - 1] == l[i]);
    }
}

proof fn lemma_size_permuted(u: Seq<Seq<char>>, p: Seq<Seq<char>>)
    requires
        p.to_multiset() == u.to_multiset(),
    ensures
        size(p) == size(u),
    decreases p.len(),
{
    broadcast use group_to_multiset_ensures;

    lemma_as_many(u, p);
    if p.len() > 0 {
        let j = lemma_member(u, p, 0);
        lemma_size_remove(u, j);
        lemma_size_remove(p, 0);
        assert(u.remove(j).to_multiset() == u.to_multiset().remove(u[j]));
        assert(p.remove(0).to_multiset() == p.to_multiset().remove(p[0]));
        lemma_size_permuted(u.remove(j), p.remove(0));
    }
}

/// The lines of a text that ends with a line break take no more bytes than the text, and hold no breaks.
proof fn lemma_lines_size(s: Seq<char>, from: int)
    requires
        is_whole(s),
        0 <= from <= s.len(),
    ensures
        size(lines_from(s, from)) <= byte_len(s.skip(from)),
        forall|i: int|
            0 <= i < lines_from(s, from).len() ==> is_inline(#[trigger] lines_from(s, from)[i]),
    decreases s.len() - from,
{
    if from < s.len() {
        let k = find_from(s, '\n', from);
        lemma_find_from(s, '\n', from);
        assert(k < s.len()) by {
            if k == s.len() {
                assert(s[s.len() - 1] != '\n');
            }
        }
        lemma_lines_size(s, k + 1);
        let x = s.subrange(from, k);
        let rest = lines_from(s, k + 1);
        let all = lines_from(s, from);
        assert(all == seq![chomp(x)] + rest);
        assert(all[0] == chomp(x));
        assert(all.skip(1) =~= rest);
        reveal_strlit("\n");
        assert(s.skip(from) =~= x + "\n"@ + s.skip(k + 1));
        lemma_bytes_add(x, "\n"@);
        lemma_bytes_add(x + "\n"@, s.skip(k + 1));
        lemma_break_bytes();
        lemma_chomp_bytes(x);
        assert(is_inline(chomp(x))) by {
            reveal(is_inline);
            assert forall|i: int| 0 <= i < chomp(x).len() implies #[trigger] chomp(x)[i] != '\n' by {
                assert(chomp(x)[i] == s[from + i]);
            }
        }
        assert forall|i: int| 0 <= i < all.len() implies is_inline(#[trigger] all[i]) by {
            if i > 0 {
                assert(all[i] == rest[i - 1]);
            }
        }
    }
}

/// Lines without a carriage return at their ends.
spec fn chomped(l: Seq<Seq<char>>) -> Seq<Seq<char>> {
    Seq::new(l.len(), |i: int| chomp(l[i]))
}

proof fn lemma_listed_lines(l: Seq<Seq<char>>)
    requires
        forall|i: int| 0 <= i < l.len() ==> is_inline(#[trigger] l[i]),
    ensures
        lines(listed(l)) == chomped(l),
    decreases l.len(),
{
    if l.len() > 0 {
        let line = l[0] + "\n"@;
        let rest = l.skip(1);
        reveal_strlit("\n");
        assert(line.drop_last() =~= l[0]);
        assert(is_one_line(line)) by {
            reveal(is_one_line);
            assert(is_inline(l[0]));
        }
        assert forall|i: int| 0 <= i < rest.len() implies is_inline(#[trigger] rest[i]) by {
            assert(rest[i] == l[i + 1]);
        }
        lemma_listed_lines(rest);
        lemma_lines_one(line);
        lemma_lines_append(line, listed(rest));
        assert(chomped(l) =~= seq![chomp(l[0])] + chomped(rest));
    } else {
        assert(chomped(l) =~= Seq::empty());
    }
}

proof fn lemma_white_start(s: Seq<char>, t: Seq<char>, from: int, j: int)
    requires
        0 <= from <= j <= t.len() <= s.len(),
        forall|k: int| 0 <= k < t.len() ==> s[k] == t[k],
    ensures
        white_start(s, from, j) == white_start(t, from, j),
        from <= white_start(t, from, j) <= j,
    decreases j,
{
    if from < j && is_white(t[j - 1]) {
        lemma_white_start(s, t, from, j - 1);
    }
}

proof fn lemma_white_end_alike(s: Seq<char>, t: Seq<char>, i: int)
    requires
        0 <= i <= t.len(),
        t.len() + 1 == s.len(),
        is_white(s.last()),
        forall|k: int| 0 <= k < t.len() ==> s[k] == t[k],
    ensures
        i <= white_end(t, i) <= t.len(),
        white_end(t, i) < t.len() ==> white_end(s, i) == white_end(t, i),
        white_end(t, i) == t.len() ==> white_end(s, i) == s.len(),
    decreases t.len() - i,
{
    if i < t.len() {
        if is_white(t[i]) {
            lemma_white_end_alike(s, t, i + 1);
        }
    } else {
        assert(s[i] == s.last());
        assert(white_end(s, i + 1) == i + 1);
    }
}

/// A trimmed text does not depend on white space at its end.
proof fn lemma_trim_end(s: Seq<char>)
    requires
        s.len() > 0,
        is_white(s.last()),
    ensures
        trim(s.drop_last()) == trim(s),
{
    let t = s.drop_last();
    lemma_white_end_alike(s, t, 0);
    let a = white_end(t, 0);
    if a < t.len() {
        lemma_white_start(s, t, a, t.len() as int);
        assert(s[s.len() - 1] == s.last());
        assert(white_start(s, a, s.len() as int) == white_start(s, a, t.len() as int));
        assert(trim(t) =~= trim(s));
    } else {
        assert(white_start(t, a, t.len() as int) == a);
        assert(white_start(s, s.len() as int, s.len() as int) == s.len());
        assert(trim(t) =~= trim(s));
    }
}

/// A line is read alike with and without a carriage return at its end.
proof fn lemma_chomp_parts(line: Seq<char>, package: Seq<char>)
    ensures
        is_blank(chomp(line)) == is_blank(line),
        match (line_parts(chomp(line), package), line_parts(line, package)) {
            (Some((k, v)), Some((key, raw))) => k == key && raw_values(v) == raw_values(raw),
            (None, None) => true,
            _ => false,
        },
{
    if line.len() > 0 && line.last() == '\r' {
        let t = line.drop_last();
        assert(is_white('\r'));
        if is_blank(t) {
            assert forall|i: int| 0 <= i < line.len() implies is_white(#[trigger] line[i]) by {
                if i < t.len() {
                    assert(t[i] == line[i]);
                }
            }
        }
        if is_blank(line) {
            assert forall|i: int| 0 <= i < t.len() implies is_white(#[trigger] t[i]) by {
                assert(line[i] == t[i]);
            }
        }
        let k = find_from(line, '=', 0);
        lemma_find_from(line, '=', 0);
        lemma_find_from(t, '=', 0);
        if k < line.len() {
            assert(k < t.len());
            assert(t[k] == '=');
            assert forall|j: int| 0 <= j < k implies t[j] != '=' by {
                assert(line[j] != '=');
            }
            lemma_find_at(t, '=', 0, k);
            assert(t.take(k) =~= line.take(k));
            let raw = line.skip(k + 1);
            assert(raw.last() == '\r');
            assert(t.skip(k + 1) =~= raw.drop_last());
            lemma_trim_end(raw);
        } else {
            let n = find_from(t, '=', 0);
            if n < t.len() {
                assert(line[n] == t[n]);
            }
        }
    }
}

proof fn lemma_chomped_sections(
    acc: Seq<UciSectionView>,
    l: Seq<Seq<char>>,
    package: Seq<char>,
    dashes: bool,
    i: int,
)
    requires
        0 <= i,
    ensures
        sections_from(acc, chomped(l), package, dashes, i) == sections_from(
            acc,
            l,
            package,
            dashes,
            i,
        ),
    decreases l.len() - i,
{
    if i < l.len() {
        lemma_chomp_parts(l[i], package);
        assert(section_step(acc, chomped(l)[i], package, dashes) == section_step(
            acc,
            l[i],
            package,
            dashes,
        ));
        if let Ok(next) = section_step(acc, l[i], package, dashes) {
            lemma_chomped_sections(next, l, package, dashes, i + 1);
        }
    }
}

proof fn lemma_chomped_options(
    acc: Seq<UciSectionView>,
    l: Seq<Seq<char>>,
    package: Seq<char>,
    i: int,
)
    requires
        0 <= i,
    ensures
        options_from(acc, chomped(l), package, i) == options_from(acc, l, package, i),
    decreases l.len() - i,
{
    if i < l.len() {
        lemma_chomp_parts(l[i], package);
        assert(option_step(acc, chomped(l)[i], package) == option_step(acc, l[i], package));
        if let Ok(next) = option_step(acc, l[i], package) {
            lemma_chomped_options(next, l, package, i + 1);
        }
    }
}

/// The lines of a listing that ends with a line break, each ended by one and permuted in any way that keeps
/// the order of the section lines, are read as the same sections, with the same values of every option.
pub proof fn law_permuted_listing_is_read_alike(
    listing: Seq<char>,
    order: Seq<Seq<char>>,
    package: Seq<char>,
    dashes: bool,
)
    requires
        is_whole(listing),
        package_sections(listing, package, dashes) is Ok,
        order.to_multiset() == lines(listing).to_multiset(),
        section_lines(order, package) == section_lines(lines(listing), package),
    ensures
        package_sections(listed(order), package, dashes) is Ok,
        same_reading(
            package_sections(listing, package, dashes)->Ok_0,
            package_sections(listed(order), package, dashes)->Ok_0,
        ),
{
    let u = lines(listing);
    let text = listed(order);
    lemma_as_many(u, order);
    lemma_lines_size(listing, 0);
    assert(listing.skip(0) =~= listing);
    assert forall|i: int| 0 <= i < order.len() implies is_inline(#[trigger] order[i]) && byte_len(
        order[i],
    ) <= MAX_UCI_LINE_BYTES by {
        let j = lemma_member(u, order, i);
        assert(is_inline(u[j]));
        assert(byte_len(u[j]) <= MAX_UCI_LINE_BYTES);
    }
    lemma_listed_lines(order);
    lemma_listed_bytes(order);
    lemma_size_permuted(u, order);
    let p = lines(text);
    assert forall|i: int| 0 <= i < p.len() implies byte_len(#[trigger] p[i])
        <= MAX_UCI_LINE_BYTES by {
        assert(is_inline(order[i]));
        lemma_chomp_bytes(order[i]);
    }
    let opened = lemma_lines_alike(u, order, package, dashes);
    lemma_chomped_sections(Seq::empty(), order, package, dashes, 0);
    lemma_chomped_options(opened, order, package, 0);
    law_parsed_package(listing, package, dashes);
    lemma_same_reading(
        package_sections(listing, package, dashes)->Ok_0,
        package_sections(text, package, dashes)->Ok_0,
    );
}

} // verus!
