//! Bounded parsing of `uci show` output.

use vstd::prelude::*;

use crate::firewall_error::{FirewallRenderError, FirewallRenderErrorView};
use crate::items::{copy_list, same_list, Item};
use crate::text::{
    begins, byte_len, byte_length, chars_are, chars_of, cut, digit, is_ascii_control, is_digit, is_lower, lines,
    same, split_lines, split_once, starts, string_of, ascii_control, piece, find, holds, is_ascii_space,
    ascii_space, skip_spaces, spaces_end, trimmed, trim, blank, is_blank,
};
use crate::views::{group_views, views, lvres};

verus! {

broadcast use group_views;

/// One option of a section and its values.
#[derive(Debug, Clone, PartialEq, Eq)]
pub struct UciOption {
    pub name: String,
    pub values: Vec<String>,
}

#[verifier::ext_equal]
pub struct UciOptionView {
    pub name: Seq<char>,
    pub values: Seq<Seq<char>>,
}

impl View for UciOption {
    type V = UciOptionView;

    open spec fn view(&self) -> UciOptionView {
        UciOptionView {
            name: self.name@,
            values: views(self.values@),
        }
    }
}

impl Item for UciOption {
    fn alike(&self, other: &Self) -> (r: bool) {
        same(self.name.as_str(), other.name.as_str())
            && same_list(&self.values, &other.values)
    }

    fn twin(&self) -> (r: Self) {
        UciOption {
            name: self.name.clone(),
            values: copy_list(&self.values),
        }
    }
}

/// One section of a configuration package, in the order of the package.
#[derive(Debug, Clone, PartialEq, Eq)]
pub struct UciSection {
    pub selector: String,
    pub section_type: String,
    pub options: Vec<UciOption>,
    pub order: u32,
}

#[verifier::ext_equal]
pub struct UciSectionView {
    pub selector: Seq<char>,
    pub section_type: Seq<char>,
    pub options: Seq<UciOptionView>,
    pub order: u32,
}

impl View for UciSection {
    type V = UciSectionView;

    open spec fn view(&self) -> UciSectionView {
        UciSectionView {
            selector: self.selector@,
            section_type: self.section_type@,
            options: views(self.options@),
            order: self.order,
        }
    }
}

impl Item for UciSection {
    fn alike(&self, other: &Self) -> (r: bool) {
        same(self.selector.as_str(), other.selector.as_str())
            && same(self.section_type.as_str(), other.section_type.as_str())
            && same_list(&self.options, &other.options)
            && self.order == other.order
    }

    fn twin(&self) -> (r: Self) {
        UciSection {
            selector: self.selector.clone(),
            section_type: self.section_type.clone(),
            options: copy_list(&self.options),
            order: self.order,
        }
    }
}

pub const MAX_UCI_SHOW_BYTES: usize = 262144;

pub const MAX_UCI_SHOW_LINES: usize = 4096;

pub const MAX_UCI_LINE_BYTES: usize = 2048;

pub const MAX_UCI_SECTIONS: usize = 256;

pub const MAX_UCI_OPTIONS: usize = 128;

pub const MAX_UCI_VALUES: usize = 64;

pub const MAX_UCI_VALUE_BYTES: usize = 1024;

/// The values of the first option of a name from `i` on.
pub open spec fn option_from(
    options: Seq<UciOptionView>,
    name: Seq<char>,
    i: int,
) -> Option<Seq<Seq<char>>>
    decreases options.len() - i,
{
    if i < 0 || i >= options.len() {
        None
    } else if options[i].name == name {
        Some(options[i].values)
    } else {
        option_from(options, name, i + 1)
    }
}

impl UciSectionView {
    /// The values of an option.
    pub open spec fn get(self, name: Seq<char>) -> Option<Seq<Seq<char>>> {
        option_from(self.options, name, 0)
    }

    /// The first value of an option.
    pub open spec fn first(self, name: Seq<char>) -> Option<Seq<char>> {
        match self.get(name) {
            Some(v) => if v.len() > 0 {
                Some(v[0])
            } else {
                None
            },
            None => None,
        }
    }

    /// The values of an option, none where the option is absent.
    pub open spec fn values(self, name: Seq<char>) -> Seq<Seq<char>> {
        match self.get(name) {
            Some(v) => v,
            None => Seq::empty(),
        }
    }

    pub open spec fn has(self, name: Seq<char>) -> bool {
        self.get(name) is Some
    }

    /// The names of the options, in the order in which they were set.
    pub open spec fn option_names(self) -> Seq<Seq<char>> {
        Seq::new(self.options.len(), |i: int| self.options[i].name)
    }

    /// The value of an option that has exactly one.
    pub open spec fn scalar(self, name: Seq<char>) -> Option<Seq<char>> {
        match self.get(name) {
            Some(v) => if v.len() == 1 {
                Some(v[0])
            } else {
                None
            },
            None => None,
        }
    }
}

/// The view of an optional text.
pub open spec fn text_view(o: Option<&str>) -> Option<Seq<char>> {
    match o {
        Some(s) => Some(s@),
        None => None,
    }
}

impl UciSection {
    /// The values of an option.
    pub fn get(&self, name: &str) -> (r: Option<&Vec<String>>)
        ensures
            match r {
                Some(v) => self@.get(name@) == Some(views(v@)),
                None => self@.get(name@) is None,
            },
    {
        let mut i: usize = 0;
        while i < self.options.len()
            invariant
                i <= self.options@.len(),
                option_from(self@.options, name@, i as int) == self@.get(name@),
            decreases self.options@.len() - i,
        {
            assert(self@.options[i as int] == self.options@[i as int]@);
            if same(self.options[i].name.as_str(), name) {
                return Some(&self.options[i].values);
            }
            i = i + 1;
        }
        None
    }

    /// The first value of an option.
    pub fn first(&self, option: &str) -> (r: Option<&str>)
        ensures
            text_view(r) == self@.first(option@),
    {
        match self.get(option) {
            Some(v) => {
                if v.len() > 0 {
                    assert(views(v@)[0] == v@[0]@);
                    Some(v[0].as_str())
                } else {
                    None
                }
            },
            None => None,
        }
    }

    /// The values of an option, none where the option is absent.
    pub fn values(&self, option: &str) -> (r: &[String])
        ensures
            views(r@) == self@.values(option@),
    {
        match self.get(option) {
            Some(v) => v.as_slice(),
            None => &[],
        }
    }

    /// The names of the options.
    pub fn names(&self) -> (r: Vec<String>)
        ensures
            views(r@) == self@.option_names(),
    {
        let mut r: Vec<String> = Vec::new();
        let mut i: usize = 0;
        while i < self.options.len()
            invariant
                i <= self.options@.len(),
                views(r@) =~= self@.option_names().take(i as int),
            decreases self.options@.len() - i,
        {
            r.push(self.options[i].name.clone());
            i = i + 1;
        }
        assert(self@.option_names().take(i as int) =~= self@.option_names());
        r
    }

    pub fn has(&self, name: &str) -> (r: bool)
        ensures
            r == self@.has(name@),
    {
        self.get(name).is_some()
    }

    /// The value of an option that has exactly one.
    pub fn scalar(&self, option: &str) -> (r: Option<&str>)
        ensures
            text_view(r) == self@.scalar(option@),
    {
        match self.get(option) {
            Some(v) => {
                if v.len() == 1 {
                    assert(views(v@)[0] == v@[0]@);
                    Some(v[0].as_str())
                } else {
                    None
                }
            },
            None => None,
        }
    }
}

/// Lower-case letters, digits and underscores, at most 128 of them.
pub open spec fn is_identifier(s: Seq<char>) -> bool {
    0 < s.len() && byte_len(s) <= 128 && forall|i: int|
        0 <= i < s.len() ==> (is_lower(#[trigger] s[i]) || is_digit(s[i]) || s[i] == '_')
}

/// An identifier in which hyphens may stand too.
pub open spec fn is_dashed_identifier(s: Seq<char>) -> bool {
    0 < s.len() && byte_len(s) <= 128 && forall|i: int|
        0 <= i < s.len() ==> (is_lower(#[trigger] s[i]) || is_digit(s[i]) || s[i] == '_' || s[i]
            == '-')
}

pub open spec fn is_section_type(s: Seq<char>, dashes: bool) -> bool {
    if dashes {
        is_dashed_identifier(s)
    } else {
        is_identifier(s)
    }
}

/// The index in an anonymous selector `@type[index]`.
pub open spec fn anonymous_index(section: Seq<char>, section_type: Seq<char>) -> Option<Seq<char>> {
    let n = section_type.len() as int;
    if section.len() >= n + 3 && section[0] == '@' && section.subrange(1, n + 1) == section_type
        && section[n + 1] == '[' && section.last() == ']' {
        Some(section.subrange(n + 2, section.len() - 1))
    } else {
        None
    }
}

/// A name, or an anonymous selector of the type with a decimal index.
pub open spec fn is_section(section: Seq<char>, section_type: Seq<char>) -> bool {
    is_identifier(section) || match anonymous_index(section, section_type) {
        Some(d) => d.len() > 0 && forall|i: int| 0 <= i < d.len() ==> is_digit(#[trigger] d[i]),
        None => false,
    }
}

/// The key behind the package name and the raw value of a line.
pub open spec fn line_parts(line: Seq<char>, package: Seq<char>) -> Option<(Seq<char>, Seq<char>)> {
    match split_once(line, '=') {
        Some((k, v)) => if starts(k, package + "."@) {
            let key = k.skip(package.len() as int + 1);
            if key.len() > 0 && forall|i: int|
                0 <= i < key.len() ==> !is_ascii_control(#[trigger] key[i]) {
                Some((key, v))
            } else {
                None
            }
        } else {
            None
        },
        None => None,
    }
}

/// The least index from `i` on of a quote, a backslash or a control character, or the length.
pub open spec fn quoted_end(s: Seq<char>, i: int) -> int
    decreases s.len() - i,
{
    if 0 <= i < s.len() && s[i] != '\'' && s[i] != '\\' && !is_ascii_control(s[i]) {
        quoted_end(s, i + 1)
    } else {
        i
    }
}

/// The least index from `i` on of a space, a quote or a backslash, or the length.
pub open spec fn bare_end(s: Seq<char>, i: int) -> int
    decreases s.len() - i,
{
    if 0 <= i < s.len() && s[i] != '\'' && s[i] != '\\' && !is_ascii_space(s[i]) {
        bare_end(s, i + 1)
    } else {
        i
    }
}

/// The value that begins at `i` and the index behind it: quoted, or bare up to a space. Nothing is
/// escaped, so a quote or a backslash in a value makes it malformed.
pub open spec fn value_at(s: Seq<char>, i: int) -> Option<(Seq<char>, int)> {
    if s[i] == '\'' {
        let e = quoted_end(s, i + 1);
        if e < s.len() && s[e] == '\'' && (e + 1 == s.len() || is_ascii_space(s[e + 1])) {
            Some((s.subrange(i + 1, e), e + 1))
        } else {
            None
        }
    } else {
        let e = bare_end(s, i);
        if e >= s.len() || is_ascii_space(s[e]) {
            Some((s.subrange(i, e), e))
        } else {
            None
        }
    }
}

pub open spec fn has_control(s: Seq<char>) -> bool {
    exists|i: int| 0 <= i < s.len() && is_ascii_control(#[trigger] s[i])
}

/// The values from `i` on, behind those in `acc`.
pub open spec fn values_from(acc: Seq<Seq<char>>, s: Seq<char>, i: int) -> Result<
    Seq<Seq<char>>,
    FirewallRenderErrorView,
>
    decreases s.len() - i,
{
    let j = skip_spaces(s, i);
    if i < 0 || j < i || j >= s.len() {
        if acc.len() == 0 {
            Err(FirewallRenderErrorView::MalformedUci)
        } else {
            Ok(acc)
        }
    } else if acc.len() >= MAX_UCI_VALUES {
        Err(FirewallRenderErrorView::Capacity)
    } else {
        match value_at(s, j) {
            None => Err(FirewallRenderErrorView::MalformedUci),
            Some((v, next)) => if byte_len(v) > MAX_UCI_VALUE_BYTES {
                Err(FirewallRenderErrorView::Capacity)
            } else if has_control(v) || !(i < next <= s.len()) {
                Err(FirewallRenderErrorView::MalformedUci)
            } else {
                values_from(acc.push(v), s, next)
            },
        }
    }
}

/// The values of a raw value text.
pub open spec fn raw_values(raw: Seq<char>) -> Result<Seq<Seq<char>>, FirewallRenderErrorView> {
    values_from(Seq::empty(), trim(raw), 0)
}

/// The index of the first section of a selector from `i` on, or the number of sections.
pub open spec fn section_from(sections: Seq<UciSectionView>, selector: Seq<char>, i: int) -> int
    decreases sections.len() - i,
{
    if i < 0 || i >= sections.len() {
        sections.len() as int
    } else if sections[i].selector == selector {
        i
    } else {
        section_from(sections, selector, i + 1)
    }
}

/// What a line that may open a section does to the sections before it.
pub open spec fn section_step(
    acc: Seq<UciSectionView>,
    line: Seq<char>,
    package: Seq<char>,
    dashes: bool,
) -> Result<Seq<UciSectionView>, FirewallRenderErrorView> {
    if is_blank(line) {
        Ok(acc)
    } else {
        match line_parts(line, package) {
            None => Err(FirewallRenderErrorView::MalformedUci),
            Some((key, raw)) => if key.contains('.') {
                Ok(acc)
            } else {
                match raw_values(raw) {
                    Err(e) => Err(e),
                    Ok(v) => if v.len() != 1 || !is_section_type(v[0], dashes) || !is_section(
                        key,
                        v[0],
                    ) || section_from(acc, key, 0) < acc.len() {
                        Err(FirewallRenderErrorView::MalformedUci)
                    } else if acc.len() >= MAX_UCI_SECTIONS {
                        Err(FirewallRenderErrorView::Capacity)
                    } else {
                        Ok(
                            acc.push(
                                UciSectionView {
                                    selector: key,
                                    section_type: v[0],
                                    options: Seq::empty(),
                                    order: acc.len() as u32,
                                },
                            ),
                        )
                    },
                }
            },
        }
    }
}

/// The sections that the lines from `i` on add to `acc`.
pub open spec fn sections_from(
    acc: Seq<UciSectionView>,
    all: Seq<Seq<char>>,
    package: Seq<char>,
    dashes: bool,
    i: int,
) -> Result<Seq<UciSectionView>, FirewallRenderErrorView>
    decreases all.len() - i,
{
    if i < 0 || i >= all.len() {
        Ok(acc)
    } else {
        match section_step(acc, all[i], package, dashes) {
            Err(e) => Err(e),
            Ok(next) => sections_from(next, all, package, dashes, i + 1),
        }
    }
}

/// The greatest index below `i` at which `c` stands, or -1.
pub open spec fn rfind_below(s: Seq<char>, c: char, i: int) -> int
    decreases i,
{
    if i <= 0 || i > s.len() {
        -1
    } else if s[i - 1] == c {
        i - 1
    } else {
        rfind_below(s, c, i - 1)
    }
}

pub open spec fn with_option(
    section: UciSectionView,
    name: Seq<char>,
    values: Seq<Seq<char>>,
) -> UciSectionView {
    UciSectionView { options: section.options.push(UciOptionView { name, values }), ..section }
}

/// What a line that may set an option does to the sections.
pub open spec fn option_step(
    acc: Seq<UciSectionView>,
    line: Seq<char>,
    package: Seq<char>,
) -> Result<Seq<UciSectionView>, FirewallRenderErrorView> {
    if is_blank(line) {
        Ok(acc)
    } else {
        match line_parts(line, package) {
            None => Err(FirewallRenderErrorView::MalformedUci),
            Some((key, raw)) => {
                let k = rfind_below(key, '.', key.len() as int);
                if k < 0 {
                    Ok(acc)
                } else {
                    let selector = key.take(k);
                    let name = key.skip(k + 1);
                    let at = section_from(acc, selector, 0);
                    if !is_identifier(name) || at >= acc.len() {
                        Err(FirewallRenderErrorView::MalformedUci)
                    } else {
                        match raw_values(raw) {
                            Err(e) => Err(e),
                            Ok(v) => if acc[at].options.len() >= MAX_UCI_OPTIONS || acc[at].has(
                                name,
                            ) {
                                Err(FirewallRenderErrorView::MalformedUci)
                            } else {
                                Ok(acc.update(at, with_option(acc[at], name, v)))
                            },
                        }
                    }
                }
            },
        }
    }
}

/// The sections with the options that the lines from `i` on set.
pub open spec fn options_from(
    acc: Seq<UciSectionView>,
    all: Seq<Seq<char>>,
    package: Seq<char>,
    i: int,
) -> Result<Seq<UciSectionView>, FirewallRenderErrorView>
    decreases all.len() - i,
{
    if i < 0 || i >= all.len() {
        Ok(acc)
    } else {
        match option_step(acc, all[i], package) {
            Err(e) => Err(e),
            Ok(next) => options_from(next, all, package, i + 1),
        }
    }
}

pub open spec fn over_capacity(text: Seq<char>) -> bool {
    byte_len(text) > MAX_UCI_SHOW_BYTES || lines(text).len() > MAX_UCI_SHOW_LINES || exists|i: int|
        0 <= i < lines(text).len() && byte_len(#[trigger] lines(text)[i]) > MAX_UCI_LINE_BYTES
}

/// The sections of a package, with their options, in the order of the text.
pub open spec fn package_sections(text: Seq<char>, package: Seq<char>, dashes: bool) -> Result<
    Seq<UciSectionView>,
    FirewallRenderErrorView,
> {
    if over_capacity(text) {
        Err(FirewallRenderErrorView::Capacity)
    } else {
        match sections_from(Seq::empty(), lines(text), package, dashes, 0) {
            Err(e) => Err(e),
            Ok(opened) => options_from(opened, lines(text), package, 0),
        }
    }
}

pub fn safe_uci_identifier(value: &str) -> (r: bool)
    ensures
        r == is_identifier(value@),
{
    safe_identifier_chars(chars_of(value).as_slice(), false)
}

fn safe_identifier_chars(value: &[char], dashes: bool) -> (r: bool)
    ensures
        r == is_section_type(value@, dashes),
{
    if value.len() == 0 || byte_length(string_of(value).as_str()) > 128 {
        return false;
    }
    let mut i: usize = 0;
    while i < value.len()
        invariant
            i <= value@.len(),
            forall|j: int|
                0 <= j < i ==> (is_lower(#[trigger] value@[j]) || is_digit(value@[j]) || value@[j]
                    == '_' || (dashes && value@[j] == '-')),
        decreases value@.len() - i,
    {
        let c = value[i];
        if !(('a' <= c && c <= 'z') || digit(c) || c == '_' || (dashes && c == '-')) {
            return false;
        }
        i = i + 1;
    }
    true
}

/// The index in an anonymous selector `@type[index]`.
pub fn index_in_selector(section: &str, section_type: &str) -> (r: Option<String>)
    ensures
        match r {
            Some(d) => anonymous_index(section@, section_type@) == Some(d@),
            None => anonymous_index(section@, section_type@) is None,
        },
{
    let s = chars_of(section);
    let t = chars_of(section_type);
    if s.len() < 3 || s.len() - 3 < t.len() || s[0] != '@' || s[t.len() + 1] != '[' || s[s.len()
        - 1] != ']' {
        return None;
    }
    if !chars_are(piece(s.as_slice(), 1, t.len() + 1), section_type) {
        return None;
    }
    Some(string_of(piece(s.as_slice(), t.len() + 2, s.len() - 1)))
}

/// Whether a selector is a name or an anonymous selector of the type.
pub fn valid_section(section: &str, section_type: &str) -> (r: bool)
    ensures
        r == is_section(section@, section_type@),
{
    if safe_uci_identifier(section) {
        return true;
    }
    match index_in_selector(section, section_type) {
        None => false,
        Some(index) => {
            let d = chars_of(index.as_str());
            if d.len() == 0 {
                return false;
            }
            let mut i: usize = 0;
            while i < d.len()
                invariant
                    i <= d@.len(),
                    d@ == index@,
                    anonymous_index(section@, section_type@) == Some(index@),
                    !is_identifier(section@),
                    forall|j: int| 0 <= j < i ==> is_digit(#[trigger] d@[j]),
                decreases d@.len() - i,
            {
                if !digit(d[i]) {
                    return false;
                }
                i = i + 1;
            }
            true
        },
    }
}

fn split_line<'a>(line: &'a [char], package: &str) -> (r: Option<(&'a [char], &'a [char])>)
    ensures
        match r {
            Some((k, v)) => line_parts(line@, package@) == Some((k@, v@)),
            None => line_parts(line@, package@) is None,
        },
{
    match cut(line, '=') {
        None => None,
        Some((k, v)) => {
            let mut prefix = package.to_owned();
            prefix.append(".");
            if !begins(k, prefix.as_str()) {
                return None;
            }
            proof {
                reveal_strlit(".");
            }
            let n: usize = chars_of(prefix.as_str()).len();
            let key = piece(k, n, k.len());
            assert(key@ =~= k@.skip(package@.len() as int + 1));
            if key.len() == 0 {
                return None;
            }
            let mut i: usize = 0;
            while i < key.len()
                invariant
                    i <= key@.len(),
                    key@ == k@.skip(package@.len() as int + 1),
                    split_once(line@, '=') == Some((k@, v@)),
                    forall|j: int| 0 <= j < i ==> !is_ascii_control(#[trigger] key@[j]),
                decreases key@.len() - i,
            {
                if ascii_control(key[i]) {
                    return None;
                }
                i = i + 1;
            }
            Some((key, v))
        },
    }
}

fn find_quoted_end(s: &[char], from: usize) -> (r: usize)
    requires
        from <= s@.len(),
    ensures
        r == quoted_end(s@, from as int),
        from <= r <= s@.len(),
{
    let mut i: usize = from;
    while i < s.len() && s[i] != '\'' && s[i] != '\\' && !ascii_control(s[i])
        invariant
            from <= i <= s@.len(),
            quoted_end(s@, i as int) == quoted_end(s@, from as int),
        decreases s@.len() - i,
    {
        i = i + 1;
    }
    i
}

fn find_bare_end(s: &[char], from: usize) -> (r: usize)
    requires
        from <= s@.len(),
    ensures
        r == bare_end(s@, from as int),
        from <= r <= s@.len(),
{
    let mut i: usize = from;
    while i < s.len() && s[i] != '\'' && s[i] != '\\' && !ascii_space(s[i])
        invariant
            from <= i <= s@.len(),
            bare_end(s@, i as int) == bare_end(s@, from as int),
        decreases s@.len() - i,
    {
        i = i + 1;
    }
    i
}

fn read_value(s: &[char], from: usize) -> (r: Option<(String, usize)>)
    requires
        from < s@.len(),
        !is_ascii_space(s@[from as int]),
    ensures
        match r {
            Some((v, next)) => {
                &&& value_at(s@, from as int) == Some((v@, next as int))
                &&& from < next <= s@.len()
            },
            None => value_at(s@, from as int) is None,
        },
{
    if s[from] == '\'' {
        let e: usize = find_quoted_end(s, from + 1);
        if e < s.len() && s[e] == '\'' && (e + 1 == s.len() || ascii_space(s[e + 1])) {
            Some((string_of(piece(s, from + 1, e)), e + 1))
        } else {
            None
        }
    } else {
        let e: usize = find_bare_end(s, from);
        if e == s.len() || ascii_space(s[e]) {
            Some((string_of(piece(s, from, e)), e))
        } else {
            None
        }
    }
}

fn control_in(s: &str) -> (r: bool)
    ensures
        r == has_control(s@),
{
    let cs = chars_of(s);
    let mut i: usize = 0;
    while i < cs.len()
        invariant
            i <= cs@.len(),
            cs@ == s@,
            forall|j: int| 0 <= j < i ==> !is_ascii_control(#[trigger] cs@[j]),
        decreases cs@.len() - i,
    {
        if ascii_control(cs[i]) {
            assert(is_ascii_control(s@[i as int]));
            return true;
        }
        i = i + 1;
    }
    false
}

/// Reads the values of a shown option.
pub fn parse_uci_values(value: &[char]) -> (r: Result<Vec<String>, FirewallRenderError>)
    ensures
        lvres(r) == raw_values(value@),
{
    let s = trimmed(value);
    let mut values: Vec<String> = Vec::new();
    let mut cursor: usize = 0;
    loop
        invariant
            cursor <= s@.len(),
            s@ == trim(value@),
            values_from(views(values@), s@, cursor as int) == raw_values(value@),
        decreases s@.len() - cursor,
    {
        let at: usize = spaces_end(s, cursor);
        if at == s.len() {
            if values.len() == 0 {
                return Err(FirewallRenderError::MalformedUci);
            }
            return Ok(values);
        }
        if values.len() >= MAX_UCI_VALUES {
            return Err(FirewallRenderError::Capacity);
        }
        match read_value(s, at) {
            None => {
                return Err(FirewallRenderError::MalformedUci);
            },
            Some((v, next)) => {
                if byte_length(v.as_str()) > MAX_UCI_VALUE_BYTES {
                    return Err(FirewallRenderError::Capacity);
                }
                if control_in(v.as_str()) {
                    return Err(FirewallRenderError::MalformedUci);
                }
                values.push(v);
                cursor = next;
            },
        }
    }
}

fn find_section(sections: &Vec<UciSection>, selector: &str) -> (r: usize)
    ensures
        r == section_from(views(sections@), selector@, 0),
        r <= sections@.len(),
{
    let mut i: usize = 0;
    while i < sections.len()
        invariant
            i <= sections@.len(),
            section_from(views(sections@), selector@, i as int) == section_from(
                views(sections@),
                selector@,
                0,
            ),
        decreases sections@.len() - i,
    {
        if same(sections[i].selector.as_str(), selector) {
            return i;
        }
        i = i + 1;
    }
    i
}

fn open_section(
    sections: &mut Vec<UciSection>,
    line: &[char],
    package: &str,
    dashes: bool,
) -> (r: Result<(), FirewallRenderError>)
    ensures
        match r {
            Ok(()) => section_step(views(old(sections)@), line@, package@, dashes) == Ok::<
                Seq<UciSectionView>,
                FirewallRenderErrorView,
            >(views(final(sections)@)),
            Err(e) => section_step(views(old(sections)@), line@, package@, dashes) == Err::<
                Seq<UciSectionView>,
                FirewallRenderErrorView,
            >(e@),
        },
{
    if blank(line) {
        return Ok(());
    }
    match split_line(line, package) {
        None => Err(FirewallRenderError::MalformedUci),
        Some((key, raw)) => {
            let dot: usize = find(key, '.', 0);
            if dot < key.len() {
                assert(key@.contains('.')) by {
                    assert(key@[dot as int] == '.');
                }
                return Ok(());
            }
            assert(!key@.contains('.'));
            match parse_uci_values(raw) {
                Err(e) => Err(e),
                Ok(values) => {
                    if values.len() != 1 {
                        return Err(FirewallRenderError::MalformedUci);
                    }
                    assert(views(values@)[0] == values@[0]@);
                    let section_type = values[0].clone();
                    let selector = string_of(key);
                    if !safe_identifier_chars(chars_of(section_type.as_str()).as_slice(), dashes)
                        || !valid_section(selector.as_str(), section_type.as_str()) {
                        return Err(FirewallRenderError::MalformedUci);
                    }
                    if find_section(sections, selector.as_str()) < sections.len() {
                        return Err(FirewallRenderError::MalformedUci);
                    }
                    if sections.len() >= MAX_UCI_SECTIONS {
                        return Err(FirewallRenderError::Capacity);
                    }
                    let order: u32 = sections.len() as u32;
                    let options: Vec<UciOption> = Vec::new();
                    let ghost before = sections@;
                    let section = UciSection { selector, section_type, options, order };
                    assert(section@.options =~= Seq::empty());
                    sections.push(section);
                    Ok(())
                },
            }
        },
    }
}

fn rfind(s: &[char], c: char) -> (r: Option<usize>)
    ensures
        match r {
            Some(k) => rfind_below(s@, c, s@.len() as int) == k && k < s@.len(),
            None => rfind_below(s@, c, s@.len() as int) == -1,
        },
{
    let mut i: usize = s.len();
    while i > 0
        invariant
            i <= s@.len(),
            rfind_below(s@, c, i as int) == rfind_below(s@, c, s@.len() as int),
        decreases i,
    {
        if s[i - 1] == c {
            return Some(i - 1);
        }
        i = i - 1;
    }
    None
}

fn set_option(sections: &mut Vec<UciSection>, line: &[char], package: &str) -> (r: Result<
    (),
    FirewallRenderError,
>)
    ensures
        match r {
            Ok(()) => option_step(views(old(sections)@), line@, package@) == Ok::<
                Seq<UciSectionView>,
                FirewallRenderErrorView,
            >(views(final(sections)@)),
            Err(e) => option_step(views(old(sections)@), line@, package@) == Err::<
                Seq<UciSectionView>,
                FirewallRenderErrorView,
            >(e@),
        },
{
    if blank(line) {
        return Ok(());
    }
    match split_line(line, package) {
        None => Err(FirewallRenderError::MalformedUci),
        Some((key, raw)) => {
            match rfind(key, '.') {
                None => Ok(()),
                Some(k) => {
                    let end: usize = key.len();
                    let selector = string_of(piece(key, 0, k));
                    let option = string_of(piece(key, k + 1, end));
                    assert(selector@ =~= key@.take(k as int));
                    assert(option@ =~= key@.skip(k + 1));
                    if !safe_uci_identifier(option.as_str()) {
                        return Err(FirewallRenderError::MalformedUci);
                    }
                    let at: usize = find_section(sections, selector.as_str());
                    if at >= sections.len() {
                        return Err(FirewallRenderError::MalformedUci);
                    }
                    match parse_uci_values(raw) {
                        Err(e) => Err(e),
                        Ok(values) => {
                            assert(views(sections@)[at as int] == sections@[at as int]@);
                            if sections[at].options.len() >= MAX_UCI_OPTIONS || sections[at].has(
                                option.as_str(),
                            ) {
                                return Err(FirewallRenderError::MalformedUci);
                            }
                            let ghost before = views(sections@);
                            let ghost name = option@;
                            let ghost vals = views(values@);
                            sections[at].options.push(UciOption { name: option, values });
                            assert(views(sections@) =~= before.update(
                                at as int,
                                with_option(before[at as int], name, vals),
                            ));
                            Ok(())
                        },
                    }
                },
            }
        },
    }
}

fn parse_package(text: &str, package: &str, dashes: bool) -> (r: Result<
    Vec<UciSection>,
    FirewallRenderError,
>)
    ensures
        lvres(r) == package_sections(text@, package@, dashes),
{
    if byte_length(text) > MAX_UCI_SHOW_BYTES {
        return Err(FirewallRenderError::Capacity);
    }
    let rows = split_lines(chars_of(text).as_slice());
    let ghost all = lines(text@);
    if rows.len() > MAX_UCI_SHOW_LINES {
        return Err(FirewallRenderError::Capacity);
    }
    let mut i: usize = 0;
    while i < rows.len()
        invariant
            i <= rows@.len(),
            views(rows@) == all,
            all == lines(text@),
            forall|j: int| 0 <= j < i ==> byte_len(#[trigger] all[j]) <= MAX_UCI_LINE_BYTES,
        decreases rows@.len() - i,
    {
        assert(all[i as int] == rows@[i as int]@);
        if byte_length(string_of(rows[i].as_slice()).as_str()) > MAX_UCI_LINE_BYTES {
            assert(byte_len(lines(text@)[i as int]) > MAX_UCI_LINE_BYTES);
            return Err(FirewallRenderError::Capacity);
        }
        i = i + 1;
    }
    assert(!over_capacity(text@));
    let mut sections: Vec<UciSection> = Vec::new();
    let ghost opened = sections_from(Seq::empty(), all, package@, dashes, 0);
    i = 0;
    while i < rows.len()
        invariant
            i <= rows@.len(),
            views(rows@) == all,
            all == lines(text@),
            !over_capacity(text@),
            opened == sections_from(Seq::empty(), all, package@, dashes, 0),
            sections_from(views(sections@), all, package@, dashes, i as int) == opened,
        decreases rows@.len() - i,
    {
        assert(all[i as int] == rows@[i as int]@);
        match open_section(&mut sections, rows[i].as_slice(), package, dashes) {
            Err(e) => {
                return Err(e);
            },
            Ok(()) => {},
        }
        i = i + 1;
    }
    let ghost first = views(sections@);
    i = 0;
    while i < rows.len()
        invariant
            i <= rows@.len(),
            views(rows@) == all,
            all == lines(text@),
            !over_capacity(text@),
            sections_from(Seq::empty(), all, package@, dashes, 0) == Ok::<
                Seq<UciSectionView>,
                FirewallRenderErrorView,
            >(first),
            options_from(views(sections@), all, package@, i as int) == options_from(
                first,
                all,
                package@,
                0,
            ),
        decreases rows@.len() - i,
    {
        assert(all[i as int] == rows@[i as int]@);
        match set_option(&mut sections, rows[i].as_slice(), package) {
            Err(e) => {
                return Err(e);
            },
            Ok(()) => {},
        }
        i = i + 1;
    }
    Ok(sections)
}

/// Reads the firewall package.
pub fn parse_uci_show(uci_show: &str) -> (r: Result<Vec<UciSection>, FirewallRenderError>)
    ensures
        lvres(r) == package_sections(uci_show@, "firewall"@, false),
{
    parse_package(uci_show, "firewall", false)
}

/// Reads a package whose section types may hold hyphens.
pub fn parse_uci_show_package(uci_show: &str, package: &str) -> (r: Result<
    Vec<UciSection>,
    FirewallRenderError,
>)
    ensures
        lvres(r) == package_sections(uci_show@, package@, true),
{
    parse_package(uci_show, package, true)
}

/// What holds of every package that was read: bounded numbers of sections and options, selectors
/// that name one section each, and options that are set once each.
pub open spec fn is_package(sections: Seq<UciSectionView>) -> bool {
    &&& sections.len() <= MAX_UCI_SECTIONS
    &&& forall|i: int|
        0 <= i < sections.len() ==> (#[trigger] sections[i]).order == i && is_section(
            sections[i].selector,
            sections[i].section_type,
        ) && has_options(sections[i].options)
    &&& forall|i: int, j: int|
        0 <= i < j < sections.len() ==> (#[trigger] sections[i]).selector != (
        #[trigger] sections[j]).selector
}

pub open spec fn has_options(options: Seq<UciOptionView>) -> bool {
    &&& options.len() <= MAX_UCI_OPTIONS
    &&& forall|i: int| 0 <= i < options.len() ==> is_identifier((#[trigger] options[i]).name)
    &&& forall|i: int, j: int|
        0 <= i < j < options.len() ==> (#[trigger] options[i]).name != (#[trigger] options[j]).name
}

pub proof fn lemma_section_from(sections: Seq<UciSectionView>, selector: Seq<char>, i: int)
    requires
        0 <= i <= sections.len(),
    ensures
        i <= section_from(sections, selector, i) <= sections.len(),
        forall|j: int|
            i <= j < section_from(sections, selector, i) ==> (#[trigger] sections[j]).selector
                != selector,
        section_from(sections, selector, i) < sections.len() ==> sections[section_from(
            sections,
            selector,
            i,
        )].selector == selector,
    decreases sections.len() - i,
{
    if i < sections.len() && sections[i].selector != selector {
        lemma_section_from(sections, selector, i + 1);
    }
}

pub proof fn lemma_option_from(options: Seq<UciOptionView>, name: Seq<char>, i: int)
    requires
        0 <= i <= options.len(),
    ensures
        option_from(options, name, i) is None <==> (forall|j: int|
            i <= j < options.len() ==> (#[trigger] options[j]).name != name),
    decreases options.len() - i,
{
    if i < options.len() && options[i].name != name {
        lemma_option_from(options, name, i + 1);
    }
}

proof fn lemma_sections_kept(
    acc: Seq<UciSectionView>,
    all: Seq<Seq<char>>,
    package: Seq<char>,
    dashes: bool,
    i: int,
)
    requires
        is_package(acc),
    ensures
        sections_from(acc, all, package, dashes, i) matches Ok(s) ==> is_package(s),
    decreases all.len() - i,
{
    if 0 <= i < all.len() {
        match section_step(acc, all[i], package, dashes) {
            Err(_) => {},
            Ok(next) => {
                match line_parts(all[i], package) {
                    Some((key, raw)) => {
                        lemma_section_from(acc, key, 0);
                    },
                    None => {},
                }
                assert(is_package(next));
                lemma_sections_kept(next, all, package, dashes, i + 1);
            },
        }
    }
}

proof fn lemma_options_kept(
    acc: Seq<UciSectionView>,
    all: Seq<Seq<char>>,
    package: Seq<char>,
    i: int,
)
    requires
        is_package(acc),
    ensures
        options_from(acc, all, package, i) matches Ok(s) ==> is_package(s),
    decreases all.len() - i,
{
    if 0 <= i < all.len() {
        match option_step(acc, all[i], package) {
            Err(_) => {},
            Ok(next) => {
                match line_parts(all[i], package) {
                    Some((key, raw)) => {
                        let k = rfind_below(key, '.', key.len() as int);
                        if !is_blank(all[i]) && k >= 0 {
                            let at = section_from(acc, key.take(k), 0);
                            lemma_section_from(acc, key.take(k), 0);
                            lemma_option_from(acc[at].options, key.skip(k + 1), 0);
                            assert(has_options(next[at].options));
                            assert forall|j: int| 0 <= j < next.len() implies (
                            #[trigger] next[j]).order == j && is_section(
                                next[j].selector,
                                next[j].section_type,
                            ) && has_options(next[j].options) by {
                                assert(acc[j].order == j);
                            }
                            assert forall|a: int, b: int| 0 <= a < b < next.len() implies (
                            #[trigger] next[a]).selector != (#[trigger] next[b]).selector by {
                                assert(acc[a].selector != acc[b].selector);
                            }
                        }
                    },
                    None => {},
                }
                assert(is_package(next));
                lemma_options_kept(next, all, package, i + 1);
            },
        }
    }
}

/// Whatever text is read, the sections that come out are bounded, named once each, and set each
/// option once.
pub proof fn law_parsed_package(text: Seq<char>, package: Seq<char>, dashes: bool)
    ensures
        package_sections(text, package, dashes) matches Ok(s) ==> is_package(s),
{
    lemma_sections_kept(Seq::empty(), lines(text), package, dashes, 0);
    match sections_from(Seq::empty(), lines(text), package, dashes, 0) {
        Ok(opened) => {
            lemma_options_kept(opened, lines(text), package, 0);
        },
        Err(_) => {},
    }
}

} // verus!
