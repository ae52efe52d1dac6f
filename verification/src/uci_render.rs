//! Rendering of sections into batches of configuration commands.

use vstd::prelude::*;
use vstd::string::*;

use crate::net::{address_format, network_format, IpAddr, IpNetwork};
use crate::text::{ascii_control, byte_len, byte_length, chars_of, is_ascii_control, same};
use crate::views::{group_views, opt, views};

verus! {

broadcast use group_views;

pub const MAX_QUOTED_BYTES: usize = 1024;

/// One option to set.
#[derive(Debug, Clone)]
pub struct RenderedOption {
    pub name: &'static str,
    pub value: String,
}

/// One list to fill.
#[derive(Debug, Clone)]
pub struct RenderedList {
    pub name: &'static str,
    pub values: Vec<String>,
}

/// A section as it is to be written.
#[derive(Debug, Clone)]
pub struct RenderedSection {
    pub section_type: &'static str,
    pub options: Vec<RenderedOption>,
    pub lists: Vec<RenderedList>,
}

pub type OptionsView = Seq<(Seq<char>, Seq<char>)>;

pub type ListsView = Seq<(Seq<char>, Seq<Seq<char>>)>;

#[verifier::ext_equal]
pub struct RenderedSectionView {
    pub section_type: Seq<char>,
    pub options: OptionsView,
    pub lists: ListsView,
}

impl View for RenderedOption {
    type V = (Seq<char>, Seq<char>);

    open spec fn view(&self) -> (Seq<char>, Seq<char>) {
        (self.name@, self.value@)
    }
}

impl View for RenderedList {
    type V = (Seq<char>, Seq<Seq<char>>);

    open spec fn view(&self) -> (Seq<char>, Seq<Seq<char>>) {
        (self.name@, views(self.values@))
    }
}

impl View for RenderedSection {
    type V = RenderedSectionView;

    open spec fn view(&self) -> RenderedSectionView {
        RenderedSectionView {
            section_type: self.section_type@,
            options: views(self.options@),
            lists: views(self.lists@),
        }
    }
}

/// The options with one more behind them, if there is a value for it.
pub open spec fn put_some(
    options: OptionsView,
    name: Seq<char>,
    value: Option<Seq<char>>,
) -> OptionsView {
    match value {
        Some(v) => options.push((name, v)),
        None => options,
    }
}

/// The lists with one more behind them, if it holds anything.
pub open spec fn put_list(
    lists: ListsView,
    name: Seq<char>,
    values: Seq<Seq<char>>,
) -> ListsView {
    if values.len() > 0 {
        lists.push((name, values))
    } else {
        lists
    }
}

/// The first of some texts.
pub open spec fn first_of(s: Seq<Seq<char>>) -> Option<Seq<char>> {
    if s.len() > 0 {
        Some(s[0])
    } else {
        None
    }
}

pub open spec fn flag(b: bool) -> Seq<char> {
    if b {
        "1"@
    } else {
        "0"@
    }
}

/// Whether a text can stand between quotes: it is bounded and holds no quote, backslash or control
/// character.
pub open spec fn is_quotable(s: Seq<char>) -> bool {
    byte_len(s) <= MAX_QUOTED_BYTES && forall|i: int|
        0 <= i < s.len() ==> !is_ascii_control(#[trigger] s[i]) && s[i] != '\'' && s[i] != '\\'
}

pub open spec fn quoted(s: Seq<char>) -> Seq<char> {
    "'"@ + s + "'"@
}

/// A command that assigns a quoted value.
pub open spec fn assign_line(
    verb: Seq<char>,
    package: Seq<char>,
    section: Seq<char>,
    name: Seq<char>,
    value: Seq<char>,
) -> Seq<char> {
    verb + " "@ + package + "."@ + section + "."@ + name + "="@ + quoted(value) + "\n"@
}

/// A command that removes one option.
pub open spec fn delete_option_line(
    package: Seq<char>,
    section: Seq<char>,
    name: Seq<char>,
) -> Seq<char> {
    "delete "@ + package + "."@ + section + "."@ + name + "\n"@
}

/// A command that removes a section.
pub open spec fn delete_line(package: Seq<char>, section: Seq<char>) -> Seq<char> {
    "delete "@ + package + "."@ + section + "\n"@
}

/// A command that creates a section of a type.
pub open spec fn create_line(
    package: Seq<char>,
    section: Seq<char>,
    section_type: Seq<char>,
) -> Seq<char> {
    "set "@ + package + "."@ + section + "="@ + section_type + "\n"@
}

/// The commands that set the options from `i` on, behind `acc`; nothing where a value cannot be
/// quoted.
pub open spec fn options_text(
    acc: Seq<char>,
    package: Seq<char>,
    section: Seq<char>,
    options: OptionsView,
    i: int,
) -> Option<Seq<char>>
    decreases options.len() - i,
{
    if i < 0 || i >= options.len() {
        Some(acc)
    } else if !is_quotable(options[i].1) {
        None
    } else {
        options_text(
            acc + assign_line("set"@, package, section, options[i].0, options[i].1),
            package,
            section,
            options,
            i + 1,
        )
    }
}

/// The commands that add the values from `i` on to a list, behind `acc`.
pub open spec fn values_text(
    acc: Seq<char>,
    package: Seq<char>,
    section: Seq<char>,
    name: Seq<char>,
    values: Seq<Seq<char>>,
    i: int,
) -> Option<Seq<char>>
    decreases values.len() - i,
{
    if i < 0 || i >= values.len() {
        Some(acc)
    } else if !is_quotable(values[i]) {
        None
    } else {
        values_text(
            acc + assign_line("add_list"@, package, section, name, values[i]),
            package,
            section,
            name,
            values,
            i + 1,
        )
    }
}

/// The commands that fill the lists from `i` on, behind `acc`.
pub open spec fn lists_text(
    acc: Seq<char>,
    package: Seq<char>,
    section: Seq<char>,
    lists: ListsView,
    i: int,
) -> Option<Seq<char>>
    decreases lists.len() - i,
{
    if i < 0 || i >= lists.len() {
        Some(acc)
    } else {
        match values_text(acc, package, section, lists[i].0, lists[i].1, 0) {
            None => None,
            Some(next) => lists_text(next, package, section, lists, i + 1),
        }
    }
}

/// The commands that set a section's options and then fill its lists, behind `acc`.
pub open spec fn section_text(
    acc: Seq<char>,
    package: Seq<char>,
    section: Seq<char>,
    rendered: RenderedSectionView,
) -> Option<Seq<char>> {
    match options_text(acc, package, section, rendered.options, 0) {
        None => None,
        Some(next) => lists_text(next, package, section, rendered.lists, 0),
    }
}

/// The commands that remove those of the options from `i` on that are supported, behind `acc`.
pub open spec fn cleared_text(
    acc: Seq<char>,
    package: Seq<char>,
    section: Seq<char>,
    options: Seq<Seq<char>>,
    supported: Seq<Seq<char>>,
    i: int,
) -> Seq<char>
    decreases options.len() - i,
{
    if i < 0 || i >= options.len() {
        acc
    } else if supported.contains(options[i]) {
        cleared_text(
            acc + delete_option_line(package, section, options[i]),
            package,
            section,
            options,
            supported,
            i + 1,
        )
    } else {
        cleared_text(acc, package, section, options, supported, i + 1)
    }
}

/// A hexadecimal digest that a section name can be made of.
pub open spec fn is_digest(s: Seq<char>) -> bool {
    byte_len(s) >= 16 && forall|i: int| 0 <= i < s.len() ==> crate::text::is_hex(#[trigger] s[i])
}

pub fn push_option(options: &mut Vec<RenderedOption>, name: &'static str, value: String)
    ensures
        views(final(options)@) == views(old(options)@).push((name@, value@)),
{
    options.push(RenderedOption { name, value });
}

pub fn push_text(options: &mut Vec<RenderedOption>, name: &'static str, value: &str)
    ensures
        views(final(options)@) == views(old(options)@).push((name@, value@)),
{
    options.push(RenderedOption { name, value: value.to_owned() });
}

pub fn push_some(options: &mut Vec<RenderedOption>, name: &'static str, value: &Option<String>)
    ensures
        views(final(options)@) == put_some(views(old(options)@), name@, opt(*value)),
{
    match value {
        Some(v) => push_text(options, name, v.as_str()),
        None => {},
    }
}

pub fn push_first(options: &mut Vec<RenderedOption>, name: &'static str, values: &Vec<String>)
    ensures
        views(final(options)@) == put_some(views(old(options)@), name@, first_of(views(values@))),
{
    if values.len() > 0 {
        assert(views(values@)[0] == values@[0]@);
        push_text(options, name, values[0].as_str());
    }
}

pub fn push_address(options: &mut Vec<RenderedOption>, name: &'static str, value: &Option<IpAddr>)
    ensures
        views(final(options)@) == put_some(
            views(old(options)@),
            name@,
            match *value {
                Some(a) => Some(address_format(a)),
                None => None,
            },
        ),
{
    match value {
        Some(v) => push_option(options, name, v.text()),
        None => {},
    }
}

pub fn push_network(
    options: &mut Vec<RenderedOption>,
    name: &'static str,
    value: &Option<IpNetwork>,
)
    ensures
        views(final(options)@) == put_some(
            views(old(options)@),
            name@,
            match *value {
                Some(a) => Some(network_format(a)),
                None => None,
            },
        ),
{
    match value {
        Some(v) => push_option(options, name, v.text()),
        None => {},
    }
}

pub fn push_list(lists: &mut Vec<RenderedList>, name: &'static str, values: Vec<String>)
    ensures
        views(final(lists)@) == views(old(lists)@).push((name@, views(values@))),
{
    lists.push(RenderedList { name, values });
}

pub fn push_filled_list(lists: &mut Vec<RenderedList>, name: &'static str, values: Vec<String>)
    ensures
        views(final(lists)@) == put_list(views(old(lists)@), name@, views(values@)),
{
    if values.len() > 0 {
        lists.push(RenderedList { name, values });
    }
}

pub fn bool_value(value: bool) -> (r: String)
    ensures
        r@ == flag(value),
{
    if value {
        "1".to_owned()
    } else {
        "0".to_owned()
    }
}

pub fn quotable(value: &str) -> (r: bool)
    ensures
        r == is_quotable(value@),
{
    if byte_length(value) > MAX_QUOTED_BYTES {
        return false;
    }
    let cs = chars_of(value);
    let mut i: usize = 0;
    while i < cs.len()
        invariant
            i <= cs@.len(),
            cs@ == value@,
            byte_len(value@) <= MAX_QUOTED_BYTES,
            forall|j: int|
                0 <= j < i ==> !is_ascii_control(#[trigger] cs@[j]) && cs@[j] != '\'' && cs@[j]
                    != '\\',
        decreases cs@.len() - i,
    {
        if ascii_control(cs[i]) || cs[i] == '\'' || cs[i] == '\\' {
            return false;
        }
        i = i + 1;
    }
    true
}

/// Quotes a text that can be quoted.
pub fn quote(value: &str) -> (r: Option<String>)
    ensures
        opt(r) == (if is_quotable(value@) {
            Some(quoted(value@))
        } else {
            None
        }),
{
    if !quotable(value) {
        return None;
    }
    let mut r = "'".to_owned();
    r.append(value);
    r.append("'");
    Some(r)
}

/// Appends a command that assigns a quoted value.
pub fn append_assign(
    batch: &mut String,
    verb: &str,
    package: &str,
    section: &str,
    name: &str,
    value: &str,
) -> (r: bool)
    ensures
        r == is_quotable(value@),
        r ==> final(batch)@ == old(batch)@ + assign_line(
            verb@,
            package@,
            section@,
            name@,
            value@,
        ),
{
    match quote(value) {
        None => false,
        Some(q) => {
            let mut line = verb.to_owned();
            line.append(" ");
            line.append(package);
            line.append(".");
            line.append(section);
            line.append(".");
            line.append(name);
            line.append("=");
            line.append(q.as_str());
            line.append("\n");
            batch.append(line.as_str());
            true
        },
    }
}

pub fn append_delete_option(batch: &mut String, package: &str, section: &str, name: &str)
    ensures
        final(batch)@ == old(batch)@ + delete_option_line(package@, section@, name@),
{
    let mut line = "delete ".to_owned();
    line.append(package);
    line.append(".");
    line.append(section);
    line.append(".");
    line.append(name);
    line.append("\n");
    batch.append(line.as_str());
}

pub fn append_delete(batch: &mut String, package: &str, section: &str)
    ensures
        final(batch)@ == old(batch)@ + delete_line(package@, section@),
{
    let mut line = "delete ".to_owned();
    line.append(package);
    line.append(".");
    line.append(section);
    line.append("\n");
    batch.append(line.as_str());
}

pub fn append_create(batch: &mut String, package: &str, section: &str, section_type: &str)
    ensures
        final(batch)@ == old(batch)@ + create_line(package@, section@, section_type@),
{
    let mut line = "set ".to_owned();
    line.append(package);
    line.append(".");
    line.append(section);
    line.append("=");
    line.append(section_type);
    line.append("\n");
    batch.append(line.as_str());
}

fn append_values(
    batch: &mut String,
    package: &str,
    section: &str,
    name: &str,
    values: &Vec<String>,
) -> (r: bool)
    ensures
        r == values_text(old(batch)@, package@, section@, name@, views(values@), 0) is Some,
        r ==> values_text(old(batch)@, package@, section@, name@, views(values@), 0) == Some(
            final(batch)@,
        ),
{
    let ghost start = batch@;
    let ghost all = views(values@);
    let mut i: usize = 0;
    while i < values.len()
        invariant
            i <= values@.len(),
            start == old(batch)@,
            all == views(values@),
            values_text(batch@, package@, section@, name@, all, i as int) == values_text(
                start,
                package@,
                section@,
                name@,
                all,
                0,
            ),
        decreases values@.len() - i,
    {
        assert(all[i as int] == values@[i as int]@);
        if !append_assign(batch, "add_list", package, section, name, values[i].as_str()) {
            return false;
        }
        i = i + 1;
    }
    true
}

/// Appends the commands that set a section's options and then fill its lists.
pub fn append_section(
    batch: &mut String,
    package: &str,
    section: &str,
    rendered: &RenderedSection,
) -> (r: bool)
    ensures
        r == section_text(old(batch)@, package@, section@, rendered@) is Some,
        r ==> section_text(old(batch)@, package@, section@, rendered@) == Some(final(batch)@),
{
    let ghost start = batch@;
    let ghost options = rendered@.options;
    let mut i: usize = 0;
    while i < rendered.options.len()
        invariant
            i <= rendered.options@.len(),
            start == old(batch)@,
            options == views(rendered.options@),
            options == rendered@.options,
            options_text(batch@, package@, section@, options, i as int) == options_text(
                start,
                package@,
                section@,
                options,
                0,
            ),
        decreases rendered.options@.len() - i,
    {
        assert(options[i as int] == rendered.options@[i as int]@);
        if !append_assign(
            batch,
            "set",
            package,
            section,
            rendered.options[i].name,
            rendered.options[i].value.as_str(),
        ) {
            return false;
        }
        i = i + 1;
    }
    let ghost middle = batch@;
    let ghost lists = rendered@.lists;
    i = 0;
    while i < rendered.lists.len()
        invariant
            i <= rendered.lists@.len(),
            start == old(batch)@,
            lists == views(rendered.lists@),
            lists == rendered@.lists,
            options_text(start, package@, section@, rendered@.options, 0) == Some(middle),
            lists_text(batch@, package@, section@, lists, i as int) == lists_text(
                middle,
                package@,
                section@,
                lists,
                0,
            ),
        decreases rendered.lists@.len() - i,
    {
        assert(lists[i as int] == rendered.lists@[i as int]@);
        if !append_values(
            batch,
            package,
            section,
            rendered.lists[i].name,
            &rendered.lists[i].values,
        ) {
            return false;
        }
        i = i + 1;
    }
    true
}

/// Whether a list of fixed names holds a text.
pub fn among(list: &[&'static str], s: &str) -> (r: bool)
    ensures
        r == views(list@).contains(s@),
{
    let mut i: usize = 0;
    while i < list.len()
        invariant
            i <= list@.len(),
            forall|j: int| 0 <= j < i ==> views(list@)[j] != s@,
        decreases list@.len() - i,
    {
        if same(list[i], s) {
            assert(views(list@)[i as int] == s@);
            return true;
        }
        i = i + 1;
    }
    false
}

/// Appends commands that remove those options that are supported.
pub fn append_cleared(
    batch: &mut String,
    package: &str,
    section: &str,
    options: &Vec<String>,
    supported: &[&'static str],
)
    ensures
        final(batch)@ == cleared_text(
            old(batch)@,
            package@,
            section@,
            views(options@),
            views(supported@),
            0,
        ),
{
    let ghost start = batch@;
    let ghost all = views(options@);
    let mut i: usize = 0;
    while i < options.len()
        invariant
            i <= options@.len(),
            all == views(options@),
            cleared_text(batch@, package@, section@, all, views(supported@), i as int)
                == cleared_text(start, package@, section@, all, views(supported@), 0),
        decreases options@.len() - i,
    {
        assert(all[i as int] == options@[i as int]@);
        if among(supported, options[i].as_str()) {
            append_delete_option(batch, package, section, options[i].as_str());
        }
        i = i + 1;
    }
}

/// Whether a text is a digest that a section name can be made of.
pub fn digest_like(value: &str) -> (r: bool)
    ensures
        r == is_digest(value@),
        r ==> value@.len() >= 16,
{
    if byte_length(value) < 16 {
        return false;
    }
    let cs = chars_of(value);
    let mut i: usize = 0;
    while i < cs.len()
        invariant
            i <= cs@.len(),
            cs@ == value@,
            byte_len(value@) >= 16,
            forall|j: int| 0 <= j < i ==> crate::text::is_hex(#[trigger] cs@[j]),
        decreases cs@.len() - i,
    {
        if !crate::text::hex_digit(cs[i]) {
            return false;
        }
        i = i + 1;
    }
    proof {
        vstd::utf8::is_ascii_chars_encode_utf8(value@);
    }
    true
}

} // verus!
