//! A package that is shown line by line is read back as itself.

use vstd::prelude::*;

use crate::firewall_error::FirewallRenderErrorView;
use crate::firewall_uci::{
    anonymous_index, bare_end, has_control, has_options, is_identifier, is_package, is_section, is_section_type,
    lemma_section_from, line_parts, option_from, option_step, options_from, over_capacity, package_sections,
    quoted_end, raw_values, rfind_below, section_from, section_step, sections_from, value_at, values_from,
    with_option, UciOptionView, UciSectionView, MAX_UCI_VALUES,
};
use crate::net_laws::lemma_find_at;
use crate::text::{
    is_ascii_control, is_ascii_space, is_blank, is_digit, is_lower, is_white, lines, lines_from, skip_spaces,
    split_once, trim, white_end, white_start,
};
use crate::uci_render::{is_quotable, quoted};

verus! {

/// The values from `k` on, each between quotes, with spaces between them.
pub open spec fn shown_values(v: Seq<Seq<char>>, k: int) -> Seq<char>
    decreases v.len() - k,
{
    if k < 0 || k >= v.len() {
        Seq::empty()
    } else if k == v.len() - 1 {
        quoted(v[k])
    } else {
        quoted(v[k]) + " "@ + shown_values(v, k + 1)
    }
}

/// The line that names a section and its type.
pub open spec fn header_line(package: Seq<char>, s: UciSectionView) -> Seq<char> {
    package + "."@ + s.selector + "="@ + s.section_type
}

/// The line that shows an option of a section.
pub open spec fn option_line(
    package: Seq<char>,
    selector: Seq<char>,
    o: UciOptionView,
) -> Seq<char> {
    package + "."@ + selector + "."@ + o.name + "="@ + shown_values(o.values, 0)
}

/// The lines that show the options of a section from `j` on, and then the sections from `k` on.
pub open spec fn shown_lines(
    package: Seq<char>,
    sections: Seq<UciSectionView>,
    k: int,
) -> Seq<Seq<char>>
    decreases sections.len() - k,
{
    if k < 0 || k >= sections.len() {
        Seq::empty()
    } else {
        seq![header_line(package, sections[k])] + option_lines(package, sections[k]) + shown_lines(
            package,
            sections,
            k + 1,
        )
    }
}

pub open spec fn option_lines(package: Seq<char>, s: UciSectionView) -> Seq<Seq<char>> {
    Seq::new(s.options.len(), |i: int| option_line(package, s.selector, s.options[i]))
}

/// The text of the lines from `k` on, each with the line break that ends it.
pub open spec fn text_of(l: Seq<Seq<char>>, k: int) -> Seq<char>
    decreases l.len() - k,
{
    if k < 0 || k >= l.len() {
        Seq::empty()
    } else {
        l[k] + "\n"@ + text_of(l, k + 1)
    }
}

/// Whether a section can be shown: its type is one, and each option has values that can stand between
/// quotes.
pub open spec fn is_shown(s: UciSectionView, dashes: bool) -> bool {
    is_section_type(s.section_type, dashes) && forall|i: int|
        0 <= i < s.options.len() ==> has_values((#[trigger] s.options[i]).values)
}

pub open spec fn has_values(v: Seq<Seq<char>>) -> bool {
    0 < v.len() <= MAX_UCI_VALUES && forall|i: int| 0 <= i < v.len() ==> is_quotable(#[trigger] v[i])
}

proof fn lemma_quoted_end(s: Seq<char>, i: int, e: int)
    requires
        0 <= i <= e < s.len(),
        forall|k: int|
            i <= k < e ==> #[trigger] s[k] != '\'' && s[k] != '\\' && !is_ascii_control(s[k]),
        s[e] == '\'',
    ensures
        quoted_end(s, i) == e,
    decreases e - i,
{
    if i < e {
        lemma_quoted_end(s, i + 1, e);
    }
}

proof fn lemma_bare_end(s: Seq<char>, i: int)
    requires
        0 <= i <= s.len(),
        forall|k: int|
            i <= k < s.len() ==> #[trigger] s[k] != '\'' && s[k] != '\\' && !is_ascii_space(s[k]),
    ensures
        bare_end(s, i) == s.len(),
    decreases s.len() - i,
{
    if i < s.len() {
        lemma_bare_end(s, i + 1);
    }
}

proof fn lemma_value(a: Seq<char>, v: Seq<char>, rest: Seq<char>)
    requires
        is_quotable(v),
        rest.len() == 0 || rest[0] == ' ',
    ensures
        ({
            let s = a + quoted(v) + rest;
            let e = (a.len() + v.len() + 2) as int;
            &&& s.len() == e + rest.len()
            &&& s[a.len() as int] == '\''
            &&& value_at(s, a.len() as int) == Some((v, e))
            &&& !has_control(v)
        }),
{
    reveal_strlit("'");
    let s = a + quoted(v) + rest;
    let i = a.len() as int;
    let e = (a.len() + v.len() + 1) as int;
    assert(s[i] == '\'');
    assert(s[e] == '\'');
    assert forall|k: int| i + 1 <= k < e implies #[trigger] s[k] != '\'' && s[k] != '\\'
        && !is_ascii_control(s[k]) by {
        assert(s[k] == v[k - i - 1]);
    }
    lemma_quoted_end(s, i + 1, e);
    assert(s.subrange(i + 1, e) =~= v);
    if rest.len() > 0 {
        assert(s[e + 1] == rest[0]);
    }
}

proof fn lemma_values(acc: Seq<Seq<char>>, a: Seq<char>, v: Seq<Seq<char>>, k: int)
    requires
        has_values(v),
        0 <= k < v.len(),
        acc.len() == k,
    ensures
        values_from(acc, a + shown_values(v, k), a.len() as int) == Ok::<
            Seq<Seq<char>>,
            FirewallRenderErrorView,
        >(acc + v.skip(k)),
    decreases v.len() - k,
{
    reveal_strlit(" ");
    let i = a.len() as int;
    let s = a + shown_values(v, k);
    assert(is_quotable(v[k]));
    let next = acc.push(v[k]);
    if k == v.len() - 1 {
        lemma_value(a, v[k], Seq::empty());
        assert(a + quoted(v[k]) + Seq::<char>::empty() =~= s);
        let e = s.len() as int;
        assert(skip_spaces(s, i) == i);
        assert(skip_spaces(s, e) == e);
        assert(values_from(next, s, e) == Ok::<Seq<Seq<char>>, FirewallRenderErrorView>(next));
        assert(next =~= acc + v.skip(k));
    } else {
        let rest = " "@ + shown_values(v, k + 1);
        lemma_value(a, v[k], rest);
        assert(a + quoted(v[k]) + rest =~= s);
        let e = (a.len() + v[k].len() + 2) as int;
        let b = a + quoted(v[k]) + " "@;
        assert(b + shown_values(v, k + 1) =~= s);
        assert(b.len() == e + 1);
        lemma_values(next, b, v, k + 1);
        assert(skip_spaces(s, i) == i);
        assert(s[e] == ' ');
        assert(s[e + 1] == '\'') by {
            reveal_strlit("'");
            assert(s[e + 1] == shown_values(v, k + 1)[0]);
            assert(shown_values(v, k + 1)[0] == quoted(v[k + 1])[0]);
        }
        assert(skip_spaces(s, e + 1) == e + 1);
        assert(skip_spaces(s, e) == e + 1);
        assert(values_from(next, s, e) == values_from(next, s, e + 1));
        assert(next + v.skip(k + 1) =~= acc + v.skip(k));
    }
}

proof fn lemma_ends(v: Seq<Seq<char>>, k: int)
    requires
        0 <= k < v.len(),
    ensures
        shown_values(v, k).len() >= 2,
        shown_values(v, k)[0] == '\'',
        shown_values(v, k).last() == '\'',
    decreases v.len() - k,
{
    reveal_strlit("'");
    reveal_strlit(" ");
    if k < v.len() - 1 {
        lemma_ends(v, k + 1);
        let s = shown_values(v, k);
        assert(s.last() == shown_values(v, k + 1).last());
    }
}

proof fn lemma_trim(s: Seq<char>)
    requires
        s.len() > 0,
        !is_white(s[0]),
        !is_white(s.last()),
    ensures
        trim(s) == s,
{
    assert(white_end(s, 0) == 0);
    assert(white_start(s, 0, s.len() as int) == s.len());
    assert(s.subrange(0, s.len() as int) =~= s);
}

/// The values of an option are read back from the text that shows them.
pub proof fn law_shown_values_are_read_back(v: Seq<Seq<char>>)
    requires
        has_values(v),
    ensures
        raw_values(shown_values(v, 0)) == Ok::<Seq<Seq<char>>, FirewallRenderErrorView>(v),
{
    let none = Seq::<char>::empty();
    let s = shown_values(v, 0);
    lemma_ends(v, 0);
    lemma_trim(s);
    lemma_values(Seq::empty(), none, v, 0);
    assert(none + s =~= s);
    assert(Seq::<Seq<char>>::empty() + v.skip(0) =~= v);
}

/// What is quoted for a batch is read back as one value, unchanged: the empty text and texts with spaces
/// too.
pub proof fn law_quoted_value_is_read_back(v: Seq<char>)
    requires
        is_quotable(v),
    ensures
        raw_values(quoted(v)) == Ok::<Seq<Seq<char>>, FirewallRenderErrorView>(seq![v]),
{
    let one = seq![v];
    assert(shown_values(one, 0) == quoted(v));
    law_shown_values_are_read_back(one);
}

/// Whether a character may stand in a selector or in the name of an option.
pub open spec fn is_name_char(c: char) -> bool {
    is_lower(c) || is_digit(c) || c == '_' || c == '-' || c == '@' || c == '[' || c == ']'
}

pub open spec fn is_name(s: Seq<char>) -> bool {
    s.len() > 0 && forall|i: int| 0 <= i < s.len() ==> is_name_char(#[trigger] s[i])
}

proof fn lemma_section_name(selector: Seq<char>, section_type: Seq<char>, dashes: bool)
    requires
        is_section(selector, section_type),
        is_section_type(section_type, dashes),
    ensures
        is_name(selector),
        is_name(section_type),
{
    assert(is_name(section_type));
    if !is_identifier(selector) {
        let n = section_type.len() as int;
        let d = anonymous_index(selector, section_type)->Some_0;
        assert forall|i: int| 0 <= i < selector.len() implies is_name_char(#[trigger] selector[i]) by {
            if 1 <= i < n + 1 {
                assert(selector.subrange(1, n + 1)[i - 1] == selector[i]);
                assert(is_name_char(section_type[i - 1]));
            } else if n + 2 <= i < selector.len() - 1 {
                assert(d[i - n - 2] == selector[i]);
                assert(is_digit(d[i - n - 2]));
            }
        }
    }
}

/// The parts of a line: the key behind the package, and what stands behind the first equals sign.
proof fn lemma_line_parts(package: Seq<char>, key: Seq<char>, raw: Seq<char>)
    requires
        is_name(package),
        key.len() > 0,
        forall|i: int| 0 <= i < key.len() ==> is_name_char(#[trigger] key[i]) || key[i] == '.',
    ensures
        line_parts(package + "."@ + key + "="@ + raw, package) == Some((key, raw)),
        !is_blank(package + "."@ + key + "="@ + raw),
{
    reveal_strlit(".");
    reveal_strlit("=");
    let head = package + "."@ + key;
    let line = head + "="@ + raw;
    let k = head.len() as int;
    assert(line[k] == '=');
    assert forall|j: int| 0 <= j < k implies line[j] != '=' by {
        if j < package.len() {
            assert(line[j] == package[j]);
            assert(is_name_char(package[j]));
        } else if j > package.len() {
            assert(line[j] == key[j - package.len() - 1]);
        }
    }
    lemma_find_at(line, '=', 0, k);
    assert(line.take(k) =~= head);
    assert(line.skip(k + 1) =~= raw);
    assert(split_once(line, '=') == Some((head, raw)));
    assert(head.take((package + "."@).len() as int) =~= package + "."@);
    assert(head.skip(package.len() as int + 1) =~= key);
    assert forall|i: int| 0 <= i < key.len() implies !is_ascii_control(#[trigger] key[i]) by {
        assert(is_name_char(key[i]) || key[i] == '.');
    }
    assert(line[0] == package[0]);
    assert(is_name_char(package[0]));
    assert(!is_white(line[0]));
}

proof fn lemma_type_value(t: Seq<char>, dashes: bool)
    requires
        is_section_type(t, dashes),
    ensures
        raw_values(t) == Ok::<Seq<Seq<char>>, FirewallRenderErrorView>(seq![t]),
{
    assert(is_name(t));
    assert(is_name_char(t[0]));
    assert(is_name_char(t.last()));
    lemma_trim(t);
    assert forall|k: int| 0 <= k < t.len() implies #[trigger] t[k] != '\'' && t[k] != '\\'
        && !is_ascii_space(t[k]) by {
        assert(is_name_char(t[k]));
    }
    lemma_bare_end(t, 0);
    assert(skip_spaces(t, 0) == 0);
    assert(t.subrange(0, t.len() as int) =~= t);
    assert forall|k: int| 0 <= k < t.len() implies !is_ascii_control(#[trigger] t[k]) by {
        assert(is_name_char(t[k]));
    }
    assert(!has_control(t));
    let none = Seq::<Seq<char>>::empty();
    let n = t.len() as int;
    assert(value_at(t, 0) == Some((t, n)));
    assert(skip_spaces(t, n) == n);
    let one = none.push(t);
    assert(values_from(one, t, n) == Ok::<Seq<Seq<char>>, FirewallRenderErrorView>(one));
    assert(one =~= seq![t]);
}

/// A section without its options.
pub open spec fn bare(s: UciSectionView) -> UciSectionView {
    UciSectionView { options: Seq::empty(), ..s }
}

pub open spec fn bares(sections: Seq<UciSectionView>) -> Seq<UciSectionView> {
    Seq::new(sections.len(), |i: int| bare(sections[i]))
}

proof fn lemma_header(sections: Seq<UciSectionView>, k: int, package: Seq<char>, dashes: bool)
    requires
        is_package(sections),
        0 <= k < sections.len(),
        is_shown(sections[k], dashes),
        is_name(package),
    ensures
        ({
            let line = header_line(package, sections[k]);
            &&& section_step(bares(sections).take(k), line, package, dashes) == Ok::<
                Seq<UciSectionView>,
                FirewallRenderErrorView,
            >(bares(sections).take(k + 1))
            &&& forall|acc: Seq<UciSectionView>| #[trigger] option_step(acc, line, package) == Ok::<
                Seq<UciSectionView>,
                FirewallRenderErrorView,
            >(acc)
        }),
{
    let s = sections[k];
    let line = header_line(package, s);
    lemma_section_name(s.selector, s.section_type, dashes);
    lemma_line_parts(package, s.selector, s.section_type);
    assert forall|i: int| 0 <= i < s.selector.len() implies #[trigger] s.selector[i] != '.' by {
        assert(is_name_char(s.selector[i]));
    }
    assert(!s.selector.contains('.'));
    lemma_no_dot(s.selector, s.selector.len() as int);
    lemma_type_value(s.section_type, dashes);
    let acc = bares(sections).take(k);
    lemma_section_from(acc, s.selector, 0);
    let at = section_from(acc, s.selector, 0);
    if at < acc.len() {
        assert(acc[at].selector == sections[at].selector);
    }
    assert(s.order == k);
    assert(bares(sections).take(k + 1) =~= acc.push(bare(s)));
}

proof fn lemma_no_dot(s: Seq<char>, i: int)
    requires
        0 <= i <= s.len(),
        forall|j: int| 0 <= j < s.len() ==> #[trigger] s[j] != '.',
    ensures
        rfind_below(s, '.', i) == -1,
    decreases i,
{
    if i > 0 {
        assert(s[i - 1] != '.');
        lemma_no_dot(s, i - 1);
    }
}

proof fn lemma_last_dot(s: Seq<char>, i: int, k: int)
    requires
        0 <= k < i <= s.len(),
        s[k] == '.',
        forall|j: int| k < j < i ==> #[trigger] s[j] != '.',
    ensures
        rfind_below(s, '.', i) == k,
    decreases i,
{
    if k < i - 1 {
        assert(s[i - 1] != '.');
        lemma_last_dot(s, i - 1, k);
    }
}

/// The sections while their options are read: those before `k` are complete, the one at `k` has its
/// first `j` options, and the others have none yet.
pub open spec fn partly(sections: Seq<UciSectionView>, k: int, j: int) -> Seq<UciSectionView> {
    Seq::new(
        sections.len(),
        |i: int|
            if i < k {
                sections[i]
            } else if i == k {
                UciSectionView { options: sections[i].options.take(j), ..sections[i] }
            } else {
                bare(sections[i])
            },
    )
}

proof fn lemma_option(
    sections: Seq<UciSectionView>,
    k: int,
    j: int,
    package: Seq<char>,
    dashes: bool,
)
    requires
        is_package(sections),
        0 <= k < sections.len(),
        0 <= j < sections[k].options.len(),
        is_shown(sections[k], dashes),
        is_name(package),
    ensures
        ({
            let line = option_line(package, sections[k].selector, sections[k].options[j]);
            &&& forall|acc: Seq<UciSectionView>| #[trigger]
                section_step(acc, line, package, dashes) == Ok::<
                    Seq<UciSectionView>,
                    FirewallRenderErrorView,
                >(acc)
            &&& option_step(partly(sections, k, j), line, package) == Ok::<
                Seq<UciSectionView>,
                FirewallRenderErrorView,
            >(partly(sections, k, j + 1))
        }),
{
    reveal_strlit(".");
    let s = sections[k];
    let o = s.options[j];
    let line = option_line(package, s.selector, o);
    let key = s.selector + "."@ + o.name;
    let raw = shown_values(o.values, 0);
    lemma_section_name(s.selector, s.section_type, dashes);
    assert(is_identifier(o.name));
    assert forall|i: int| 0 <= i < key.len() implies is_name_char(#[trigger] key[i]) || key[i]
        == '.' by {
        if i < s.selector.len() {
            assert(key[i] == s.selector[i]);
        } else if i > s.selector.len() {
            assert(key[i] == o.name[i - s.selector.len() - 1]);
            assert(is_lower(o.name[i - s.selector.len() - 1]) || is_digit(
                o.name[i - s.selector.len() - 1],
            ) || o.name[i - s.selector.len() - 1] == '_');
        }
    }
    lemma_line_parts(package, key, raw);
    assert(package + "."@ + key + "="@ + raw =~= line);
    let at = s.selector.len() as int;
    assert(key[at] == '.');
    assert(key.contains('.'));
    assert forall|i: int| at < i < key.len() implies #[trigger] key[i] != '.' by {
        assert(key[i] == o.name[i - at - 1]);
        assert(is_lower(o.name[i - at - 1]) || is_digit(o.name[i - at - 1]) || o.name[i - at - 1]
            == '_');
    }
    lemma_last_dot(key, key.len() as int, at);
    assert(key.take(at) =~= s.selector);
    assert(key.skip(at + 1) =~= o.name);
    assert(has_values(o.values));
    law_shown_values_are_read_back(o.values);
    let acc = partly(sections, k, j);
    lemma_section_from(acc, s.selector, 0);
    let found = section_from(acc, s.selector, 0);
    assert(acc[k].selector == s.selector);
    assert(found == k) by {
        if found < k {
            assert(acc[found].selector == sections[found].selector);
        }
    }
    lemma_fresh(s.options, j, 0);
    assert(acc.update(k, with_option(acc[k], o.name, o.values)) =~= partly(sections, k, j + 1)) by {
        assert(s.options.take(j).push(o) =~= s.options.take(j + 1));
    }
}

proof fn lemma_fresh(options: Seq<UciOptionView>, j: int, i: int)
    requires
        0 <= i <= j < options.len(),
        forall|a: int, b: int|
            0 <= a < b < options.len() ==> (#[trigger] options[a]).name != (#[trigger] options[b]).name,
    ensures
        option_from(options.take(j), options[j].name, i) is None,
    decreases j - i,
{
    if i < j {
        assert(options.take(j)[i] == options[i]);
        assert(options[i].name != options[j].name);
        lemma_fresh(options, j, i + 1);
    }
}

proof fn lemma_skip_options(
    acc: Seq<UciSectionView>,
    all: Seq<Seq<char>>,
    sections: Seq<UciSectionView>,
    k: int,
    j: int,
    at: int,
    package: Seq<char>,
    dashes: bool,
)
    requires
        is_package(sections),
        0 <= k < sections.len(),
        0 <= j <= sections[k].options.len(),
        is_shown(sections[k], dashes),
        is_name(package),
        0 <= at,
        at + sections[k].options.len() - j <= all.len(),
        forall|x: int|
            j <= x < sections[k].options.len() ==> all[at + x - j] == option_line(
                package,
                sections[k].selector,
                #[trigger] sections[k].options[x],
            ),
    ensures
        sections_from(acc, all, package, dashes, at) == sections_from(
            acc,
            all,
            package,
            dashes,
            at + sections[k].options.len() - j,
        ),
    decreases sections[k].options.len() - j,
{
    if j < sections[k].options.len() {
        let o = sections[k].options[j];
        assert(all[at + j - j] == option_line(package, sections[k].selector, o));
        lemma_option(sections, k, j, package, dashes);
        assert(section_step(acc, all[at], package, dashes) == Ok::<
            Seq<UciSectionView>,
            FirewallRenderErrorView,
        >(acc));
        assert forall|x: int| j + 1 <= x < sections[k].options.len() implies all[at + 1 + x - (j
            + 1)] == option_line(package, sections[k].selector, #[trigger] sections[k].options[x]) by {
            assert(all[at + x - j] == option_line(
                package,
                sections[k].selector,
                sections[k].options[x],
            ));
        }
        lemma_skip_options(acc, all, sections, k, j + 1, at + 1, package, dashes);
    }
}

proof fn lemma_take_options(
    all: Seq<Seq<char>>,
    sections: Seq<UciSectionView>,
    k: int,
    j: int,
    at: int,
    package: Seq<char>,
    dashes: bool,
)
    requires
        is_package(sections),
        0 <= k < sections.len(),
        0 <= j <= sections[k].options.len(),
        is_shown(sections[k], dashes),
        is_name(package),
        0 <= at,
        at + sections[k].options.len() - j <= all.len(),
        forall|x: int|
            j <= x < sections[k].options.len() ==> all[at + x - j] == option_line(
                package,
                sections[k].selector,
                #[trigger] sections[k].options[x],
            ),
    ensures
        options_from(partly(sections, k, j), all, package, at) == options_from(
            partly(sections, k, sections[k].options.len() as int),
            all,
            package,
            at + sections[k].options.len() - j,
        ),
    decreases sections[k].options.len() - j,
{
    if j < sections[k].options.len() {
        let o = sections[k].options[j];
        assert(all[at + j - j] == option_line(package, sections[k].selector, o));
        lemma_option(sections, k, j, package, dashes);
        assert forall|x: int| j + 1 <= x < sections[k].options.len() implies all[at + 1 + x - (j
            + 1)] == option_line(package, sections[k].selector, #[trigger] sections[k].options[x]) by {
            assert(all[at + x - j] == option_line(
                package,
                sections[k].selector,
                sections[k].options[x],
            ));
        }
        lemma_take_options(all, sections, k, j + 1, at + 1, package, dashes);
    }
}

proof fn lemma_lines_at(
    pre: Seq<Seq<char>>,
    sections: Seq<UciSectionView>,
    k: int,
    package: Seq<char>,
)
    requires
        0 <= k < sections.len(),
    ensures
        ({
            let all = pre + shown_lines(package, sections, k);
            let n = pre.len() as int;
            let m = sections[k].options.len() as int;
            &&& n + 1 + m <= all.len()
            &&& all[n] == header_line(package, sections[k])
            &&& forall|x: int|
                0 <= x < m ==> all[n + 1 + x - 0] == option_line(
                    package,
                    sections[k].selector,
                    #[trigger] sections[k].options[x],
                )
            &&& all == (pre + (seq![header_line(package, sections[k])] + option_lines(
                package,
                sections[k],
            ))) + shown_lines(package, sections, k + 1)
        }),
{
    let all = pre + shown_lines(package, sections, k);
    let block = seq![header_line(package, sections[k])] + option_lines(package, sections[k]);
    assert(shown_lines(package, sections, k) == block + shown_lines(package, sections, k + 1));
    assert(all =~= (pre + block) + shown_lines(package, sections, k + 1));
    assert forall|x: int| 0 <= x < sections[k].options.len() implies all[pre.len() + 1 + x - 0]
        == option_line(package, sections[k].selector, #[trigger] sections[k].options[x]) by {
        assert(all[pre.len() + 1 + x] == block[1 + x]);
    }
}

proof fn lemma_sections(
    pre: Seq<Seq<char>>,
    sections: Seq<UciSectionView>,
    k: int,
    package: Seq<char>,
    dashes: bool,
)
    requires
        is_package(sections),
        forall|i: int| 0 <= i < sections.len() ==> is_shown(#[trigger] sections[i], dashes),
        is_name(package),
        0 <= k <= sections.len(),
    ensures
        sections_from(
            bares(sections).take(k),
            pre + shown_lines(package, sections, k),
            package,
            dashes,
            pre.len() as int,
        ) == Ok::<Seq<UciSectionView>, FirewallRenderErrorView>(bares(sections)),
    decreases sections.len() - k,
{
    let all = pre + shown_lines(package, sections, k);
    if k < sections.len() {
        let n = pre.len() as int;
        let m = sections[k].options.len() as int;
        let block = seq![header_line(package, sections[k])] + option_lines(package, sections[k]);
        assert(is_shown(sections[k], dashes));
        lemma_lines_at(pre, sections, k, package);
        lemma_header(sections, k, package, dashes);
        let next = bares(sections).take(k + 1);
        lemma_skip_options(next, all, sections, k, 0, n + 1, package, dashes);
        lemma_sections(pre + block, sections, k + 1, package, dashes);
        assert((pre + block).len() == n + 1 + m);
    } else {
        assert(bares(sections).take(k) =~= bares(sections));
    }
}

proof fn lemma_options(
    pre: Seq<Seq<char>>,
    sections: Seq<UciSectionView>,
    k: int,
    package: Seq<char>,
    dashes: bool,
)
    requires
        is_package(sections),
        forall|i: int| 0 <= i < sections.len() ==> is_shown(#[trigger] sections[i], dashes),
        is_name(package),
        0 <= k <= sections.len(),
    ensures
        options_from(
            partly(sections, k, 0),
            pre + shown_lines(package, sections, k),
            package,
            pre.len() as int,
        ) == Ok::<Seq<UciSectionView>, FirewallRenderErrorView>(sections),
    decreases sections.len() - k,
{
    let all = pre + shown_lines(package, sections, k);
    if k < sections.len() {
        let n = pre.len() as int;
        let m = sections[k].options.len() as int;
        let block = seq![header_line(package, sections[k])] + option_lines(package, sections[k]);
        assert(is_shown(sections[k], dashes));
        lemma_lines_at(pre, sections, k, package);
        lemma_header(sections, k, package, dashes);
        let acc = partly(sections, k, 0);
        assert(option_step(acc, all[n], package) == Ok::<
            Seq<UciSectionView>,
            FirewallRenderErrorView,
        >(acc));
        lemma_take_options(all, sections, k, 0, n + 1, package, dashes);
        assert(partly(sections, k, m) =~= partly(sections, k + 1, 0)) by {
            assert(sections[k].options.take(m) =~= sections[k].options);
            if k + 1 < sections.len() {
                assert(sections[k + 1].options.take(0) =~= Seq::empty());
            }
        }
        lemma_options(pre + block, sections, k + 1, package, dashes);
        assert((pre + block).len() == n + 1 + m);
    } else {
        assert(partly(sections, k, 0) =~= sections);
    }
}

/// Whether a text is a line: without line breaks, and not ending in a carriage return.
pub open spec fn is_line(s: Seq<char>) -> bool {
    s.len() > 0 && s.last() != '\r' && forall|i: int| 0 <= i < s.len() ==> #[trigger] s[i] != '\n'
}

proof fn lemma_lines(a: Seq<char>, l: Seq<Seq<char>>, k: int)
    requires
        0 <= k <= l.len(),
        forall|i: int| 0 <= i < l.len() ==> is_line(#[trigger] l[i]),
    ensures
        lines_from(a + text_of(l, k), a.len() as int) == l.skip(k),
    decreases l.len() - k,
{
    reveal_strlit("\n");
    let s = a + text_of(l, k);
    let from = a.len() as int;
    if k < l.len() {
        let line = l[k];
        assert(is_line(line));
        let to = (a.len() + line.len()) as int;
        assert(s[to] == '\n');
        assert forall|j: int| from <= j < to implies s[j] != '\n' by {
            assert(s[j] == line[j - from]);
        }
        lemma_find_at(s, '\n', from, to);
        assert(s.subrange(from, to) =~= line);
        let b = a + line + "\n"@;
        assert(b + text_of(l, k + 1) =~= s);
        assert(b.len() == to + 1);
        lemma_lines(b, l, k + 1);
        assert(l.skip(k) =~= seq![line] + l.skip(k + 1));
    } else {
        assert(l.skip(k) =~= Seq::empty());
    }
}

proof fn lemma_values_line(v: Seq<Seq<char>>, k: int)
    requires
        has_values(v),
        0 <= k < v.len(),
    ensures
        forall|i: int| 0 <= i < shown_values(v, k).len() ==> #[trigger] shown_values(v, k)[i] != '\n',
    decreases v.len() - k,
{
    reveal_strlit("'");
    reveal_strlit(" ");
    let s = shown_values(v, k);
    let q = quoted(v[k]);
    assert(is_quotable(v[k]));
    assert forall|i: int| 0 <= i < q.len() implies #[trigger] q[i] != '\n' by {
        if 1 <= i < q.len() - 1 {
            assert(q[i] == v[k][i - 1]);
        }
    }
    if k < v.len() - 1 {
        lemma_values_line(v, k + 1);
        let rest = shown_values(v, k + 1);
        assert forall|i: int| 0 <= i < s.len() implies #[trigger] s[i] != '\n' by {
            if i < q.len() {
                assert(s[i] == q[i]);
            } else if i > q.len() {
                assert(s[i] == rest[i - q.len() - 1]);
            }
        }
    }
}

proof fn lemma_name_line(package: Seq<char>, s: UciSectionView, dashes: bool)
    requires
        is_name(package),
        is_section(s.selector, s.section_type),
        is_shown(s, dashes),
        has_options(s.options),
    ensures
        is_line(header_line(package, s)),
        forall|i: int|
            0 <= i < s.options.len() ==> is_line(
                option_line(package, s.selector, #[trigger] s.options[i]),
            ),
{
    reveal_strlit(".");
    reveal_strlit("=");
    lemma_section_name(s.selector, s.section_type, dashes);
    let h = header_line(package, s);
    let n = package.len();
    let m = s.selector.len();
    assert forall|i: int| 0 <= i < h.len() implies #[trigger] h[i] != '\n' by {
        if i < n {
            assert(h[i] == package[i] && is_name_char(package[i]));
        } else if n < i < n + 1 + m {
            assert(h[i] == s.selector[i - n - 1] && is_name_char(s.selector[i - n - 1]));
        } else if i > n + 1 + m {
            assert(h[i] == s.section_type[i - n - m - 2] && is_name_char(
                s.section_type[i - n - m - 2],
            ));
        }
    }
    assert(h.last() == s.section_type.last() && is_name_char(s.section_type.last()));
    assert forall|i: int| 0 <= i < s.options.len() implies is_line(
        option_line(package, s.selector, #[trigger] s.options[i]),
    ) by {
        let o = s.options[i];
        let l = option_line(package, s.selector, o);
        let raw = shown_values(o.values, 0);
        let p = o.name.len();
        assert(has_values(o.values));
        assert(is_identifier(o.name));
        lemma_values_line(o.values, 0);
        lemma_ends(o.values, 0);
        assert forall|x: int| 0 <= x < l.len() implies #[trigger] l[x] != '\n' by {
            if x < n {
                assert(l[x] == package[x] && is_name_char(package[x]));
            } else if n < x < n + 1 + m {
                assert(l[x] == s.selector[x - n - 1] && is_name_char(s.selector[x - n - 1]));
            } else if n + 1 + m < x < n + m + 2 + p {
                assert(l[x] == o.name[x - n - m - 2]);
                assert(is_lower(o.name[x - n - m - 2]) || is_digit(o.name[x - n - m - 2])
                    || o.name[x - n - m - 2] == '_');
            } else if x > n + m + 2 + p {
                assert(l[x] == raw[x - n - m - p - 3]);
            }
        }
        assert(l.last() == raw.last());
    }
}

proof fn lemma_all_lines(package: Seq<char>, sections: Seq<UciSectionView>, k: int, dashes: bool)
    requires
        is_name(package),
        is_package(sections),
        forall|i: int| 0 <= i < sections.len() ==> is_shown(#[trigger] sections[i], dashes),
        0 <= k <= sections.len(),
    ensures
        forall|i: int|
            0 <= i < shown_lines(package, sections, k).len() ==> is_line(
                #[trigger] shown_lines(package, sections, k)[i],
            ),
    decreases sections.len() - k,
{
    if k < sections.len() {
        let s = sections[k];
        assert(is_shown(s, dashes));
        lemma_name_line(package, s, dashes);
        lemma_all_lines(package, sections, k + 1, dashes);
        let all = shown_lines(package, sections, k);
        let rest = shown_lines(package, sections, k + 1);
        let m = s.options.len() as int;
        assert forall|i: int| 0 <= i < all.len() implies is_line(#[trigger] all[i]) by {
            if i == 0 {
                assert(all[i] == header_line(package, s));
            } else if i < 1 + m {
                assert(all[i] == option_line(package, s.selector, s.options[i - 1]));
            } else {
                assert(all[i] == rest[i - 1 - m]);
            }
        }
    }
}

/// A package that is shown section by section, with each option on a line of its own and each value
/// between quotes, is read back as itself, as far as the text is not too long.
pub proof fn law_shown_package_is_read_back(
    package: Seq<char>,
    sections: Seq<UciSectionView>,
    dashes: bool,
)
    requires
        is_identifier(package),
        is_package(sections),
        forall|i: int| 0 <= i < sections.len() ==> is_shown(#[trigger] sections[i], dashes),
        !over_capacity(text_of(shown_lines(package, sections, 0), 0)),
    ensures
        package_sections(text_of(shown_lines(package, sections, 0), 0), package, dashes) == Ok::<
            Seq<UciSectionView>,
            FirewallRenderErrorView,
        >(sections),
{
    let l = shown_lines(package, sections, 0);
    let text = text_of(l, 0);
    let none = Seq::<char>::empty();
    let pre = Seq::<Seq<char>>::empty();
    assert(is_name(package));
    lemma_all_lines(package, sections, 0, dashes);
    lemma_lines(none, l, 0);
    assert(none + text =~= text);
    assert(l.skip(0) =~= l);
    assert(lines(text) == l);
    assert(pre + l =~= l);
    lemma_sections(pre, sections, 0, package, dashes);
    assert(bares(sections).take(0) =~= Seq::empty());
    lemma_options(pre, sections, 0, package, dashes);
    assert(partly(sections, 0, 0) =~= bares(sections)) by {
        if sections.len() > 0 {
            assert(sections[0].options.take(0) =~= Seq::empty());
        }
    }
}

} // verus!
