//! Isolated nftables staging for generic Linux.

use vstd::prelude::*;

use vstd::string::*;
use vstd::utf8::*;

use crate::firewall::{
    byte_texts, network_texts, port, port_text, port_texts, protocol, protocol_name, texts_of_bytes,
    texts_of_networks, texts_of_ports,
};
use crate::firewall_iptables::{double_quotable, is_double_quotable};
use crate::firewall_model::{
    FirewallAddressSet, FirewallAddressSetView, FirewallConntrackState, FirewallDirection, FirewallFamily,
    FirewallFilterRule, FirewallFilterRuleView, FirewallForwarding, FirewallForwardingView, FirewallInventory,
    FirewallLogLevel, FirewallMatch, FirewallMatchView, FirewallMutationPlan, FirewallNatKind, FirewallNatRule,
    FirewallNatRuleView, FirewallObject, FirewallObjectView, FirewallPlannedChangeView, FirewallProtocol,
    FirewallRateLimit, FirewallRejectKind, FirewallSetEntry, FirewallSetEntryView, FirewallVerdict, FirewallZone,
    FirewallZoneView, PortRange,
};
use crate::firewall_project::{project_agent_objects, projected, FirewallProjectionError};
use crate::firewall_uci::text_view;
use crate::firewall_zones::{
    filter_slot, find_zone, insert_filter_rule, insert_nat_rule, interfaces_of, nat_slot, zone_from, zone_interfaces,
};
use crate::items::{copy_list, has_item, same_list, Item};
use crate::net::{address_format, network_format, IpAddr, IpNetwork};
use crate::parse::map_all;
use crate::text::{
    ascii_control, byte_len, byte_length, chars_are, chars_of, decimal, decimal_text, has_text, hex, hex_text,
    is_ascii_control, join_texts, joined, lines, same, split_lines, text_in, trim, trimmed,
};
use crate::views::{group_views, lvres, opt, views, vres};

verus! {

broadcast use group_views;

/// Why an nftables inspection or stage was refused.
#[derive(Debug, Clone, PartialEq, Eq)]
pub enum NftablesRenderError {
    MalformedInspection,
    ForeignTable,
    Capacity,
    Ownership,
    PlanMismatch,
    InvalidObject,
    MissingReference,
    NameCollision,
    UnsupportedField(&'static str),
    UnsafeValue,
    Output,
}

#[verifier::ext_equal]
pub enum NftablesRenderErrorView {
    MalformedInspection,
    ForeignTable,
    Capacity,
    Ownership,
    PlanMismatch,
    InvalidObject,
    MissingReference,
    NameCollision,
    UnsupportedField(Seq<char>),
    UnsafeValue,
    Output,
}

impl View for NftablesRenderError {
    type V = NftablesRenderErrorView;

    open spec fn view(&self) -> NftablesRenderErrorView {
        match self {
            NftablesRenderError::MalformedInspection => NftablesRenderErrorView::MalformedInspection,
            NftablesRenderError::ForeignTable => NftablesRenderErrorView::ForeignTable,
            NftablesRenderError::Capacity => NftablesRenderErrorView::Capacity,
            NftablesRenderError::Ownership => NftablesRenderErrorView::Ownership,
            NftablesRenderError::PlanMismatch => NftablesRenderErrorView::PlanMismatch,
            NftablesRenderError::InvalidObject => NftablesRenderErrorView::InvalidObject,
            NftablesRenderError::MissingReference => NftablesRenderErrorView::MissingReference,
            NftablesRenderError::NameCollision => NftablesRenderErrorView::NameCollision,
            NftablesRenderError::UnsupportedField(x) => NftablesRenderErrorView::UnsupportedField(x@),
            NftablesRenderError::UnsafeValue => NftablesRenderErrorView::UnsafeValue,
            NftablesRenderError::Output => NftablesRenderErrorView::Output,
        }
    }
}

impl NftablesRenderErrorView {
    /// The text of the error.
    pub open spec fn message_text(self) -> Seq<char> {
        match self {
            NftablesRenderErrorView::MalformedInspection => "nftables inspection output is malformed"@,
            NftablesRenderErrorView::ForeignTable =>
                "the fixed mbed_agent nftables table is not Agent-owned"@,
            NftablesRenderErrorView::Capacity => "nftables staging exceeds its capacity"@,
            NftablesRenderErrorView::Ownership =>
                "nftables staging accepts only Agent-owned mutations"@,
            NftablesRenderErrorView::PlanMismatch => "nftables mutation plan does not match fresh inventory"@,
            NftablesRenderErrorView::InvalidObject =>
                "nftables mutation contains an invalid typed object"@,
            NftablesRenderErrorView::MissingReference =>
                "nftables object references a missing Agent-owned zone or set"@,
            NftablesRenderErrorView::NameCollision => "nftables native name collision"@,
            NftablesRenderErrorView::UnsupportedField(x) => "nftables cannot safely represent: "@ + x,
            NftablesRenderErrorView::UnsafeValue => "unsafe string cannot be represented in nftables"@,
            NftablesRenderErrorView::Output => "failed to render nftables staging artifact"@,
        }
    }
}

impl NftablesRenderError {
    /// The text of the error.
    pub fn message(&self) -> (r: String)
        ensures
            r@ == self@.message_text(),
    {
        match self {
            NftablesRenderError::MalformedInspection =>
                "nftables inspection output is malformed".to_owned(),
            NftablesRenderError::ForeignTable =>
                "the fixed mbed_agent nftables table is not Agent-owned".to_owned(),
            NftablesRenderError::Capacity => "nftables staging exceeds its capacity".to_owned(),
            NftablesRenderError::Ownership =>
                "nftables staging accepts only Agent-owned mutations".to_owned(),
            NftablesRenderError::PlanMismatch => "nftables mutation plan does not match fresh inventory".to_owned(),
            NftablesRenderError::InvalidObject =>
                "nftables mutation contains an invalid typed object".to_owned(),
            NftablesRenderError::MissingReference =>
                "nftables object references a missing Agent-owned zone or set".to_owned(),
            NftablesRenderError::NameCollision => "nftables native name collision".to_owned(),
            NftablesRenderError::UnsupportedField(x) => {
                let mut r = "nftables cannot safely represent: ".to_owned();
                r.append(x);
                r
            },
            NftablesRenderError::UnsafeValue =>
                "unsafe string cannot be represented in nftables".to_owned(),
            NftablesRenderError::Output => "failed to render nftables staging artifact".to_owned(),
        }
    }
}

/// Who owns the fixed table.
#[derive(Debug, Clone, Copy, PartialEq, Eq, Structural)]
pub enum NftablesTableState {
    Absent,
    AgentOwned,
}

impl View for NftablesTableState {
    type V = NftablesTableState;

    open spec fn view(&self) -> NftablesTableState {
        *self
    }
}

impl Item for NftablesTableState {
    fn alike(&self, other: &Self) -> (r: bool) {
        *self == *other
    }

    fn twin(&self) -> (r: Self) {
        *self
    }
}

/// A fixed operation on the staged ruleset: `nft --check --file`, or `nft --file`.
#[derive(Debug, Clone, Copy, PartialEq, Eq, Structural)]
pub enum NftablesOperation {
    Check,
    Load,
}

impl View for NftablesOperation {
    type V = NftablesOperation;

    open spec fn view(&self) -> NftablesOperation {
        *self
    }
}

impl Item for NftablesOperation {
    fn alike(&self, other: &Self) -> (r: bool) {
        *self == *other
    }

    fn twin(&self) -> (r: Self) {
        *self
    }
}

/// How the table lives with others: a drop is final, an accept can still be rejected elsewhere, and a
/// translation applies where no earlier one did.
#[derive(Debug, Clone, Copy, PartialEq, Eq, Structural)]
pub enum NftablesCoexistence {
    IsolatedAdditive,
}

impl View for NftablesCoexistence {
    type V = NftablesCoexistence;

    open spec fn view(&self) -> NftablesCoexistence {
        *self
    }
}

impl Item for NftablesCoexistence {
    fn alike(&self, other: &Self) -> (r: bool) {
        *self == *other
    }

    fn twin(&self) -> (r: Self) {
        *self
    }
}

/// What the elements of a set are.
#[derive(Debug, Clone, Copy, PartialEq, Eq, Structural)]
pub enum NftSetType {
    Ipv4Network,
    Ipv6Network,
    Mac,
    Port,
}

impl View for NftSetType {
    type V = NftSetType;

    open spec fn view(&self) -> NftSetType {
        *self
    }
}

impl Item for NftSetType {
    fn alike(&self, other: &Self) -> (r: bool) {
        *self == *other
    }

    fn twin(&self) -> (r: Self) {
        *self
    }
}

/// A set by its native name.
#[derive(Debug, Clone, PartialEq, Eq)]
pub struct NftSet {
    pub id: String,
    pub name: String,
    pub value_type: NftSetType,
    pub enabled: bool,
}

#[verifier::ext_equal]
pub struct NftSetView {
    pub id: Seq<char>,
    pub name: Seq<char>,
    pub value_type: NftSetType,
    pub enabled: bool,
}

impl View for NftSet {
    type V = NftSetView;

    open spec fn view(&self) -> NftSetView {
        NftSetView {
            id: self.id@,
            name: self.name@,
            value_type: self.value_type,
            enabled: self.enabled,
        }
    }
}

impl Item for NftSet {
    fn alike(&self, other: &Self) -> (r: bool) {
        same(self.id.as_str(), other.id.as_str())
            && same(self.name.as_str(), other.name.as_str())
            && self.value_type == other.value_type
            && self.enabled == other.enabled
    }

    fn twin(&self) -> (r: Self) {
        NftSet {
            id: self.id.clone(),
            name: self.name.clone(),
            value_type: self.value_type,
            enabled: self.enabled,
        }
    }
}

/// The objects of a projection, sorted by what they are.
#[derive(Debug, Clone, PartialEq, Eq)]
pub struct RenderContext {
    pub zones: Vec<FirewallZone>,
    pub forwardings: Vec<FirewallForwarding>,
    pub filter_rules: Vec<FirewallFilterRule>,
    pub address_sets: Vec<FirewallAddressSet>,
    pub nat_rules: Vec<FirewallNatRule>,
    pub sets: Vec<NftSet>,
}

#[verifier::ext_equal]
pub struct RenderContextView {
    pub zones: Seq<FirewallZoneView>,
    pub forwardings: Seq<FirewallForwardingView>,
    pub filter_rules: Seq<FirewallFilterRuleView>,
    pub address_sets: Seq<FirewallAddressSetView>,
    pub nat_rules: Seq<FirewallNatRuleView>,
    pub sets: Seq<NftSetView>,
}

impl View for RenderContext {
    type V = RenderContextView;

    open spec fn view(&self) -> RenderContextView {
        RenderContextView {
            zones: views(self.zones@),
            forwardings: views(self.forwardings@),
            filter_rules: views(self.filter_rules@),
            address_sets: views(self.address_sets@),
            nat_rules: views(self.nat_rules@),
            sets: views(self.sets@),
        }
    }
}

impl Item for RenderContext {
    fn alike(&self, other: &Self) -> (r: bool) {
        same_list(&self.zones, &other.zones)
            && same_list(&self.forwardings, &other.forwardings)
            && same_list(&self.filter_rules, &other.filter_rules)
            && same_list(&self.address_sets, &other.address_sets)
            && same_list(&self.nat_rules, &other.nat_rules)
            && same_list(&self.sets, &other.sets)
    }

    fn twin(&self) -> (r: Self) {
        RenderContext {
            zones: copy_list(&self.zones),
            forwardings: copy_list(&self.forwardings),
            filter_rules: copy_list(&self.filter_rules),
            address_sets: copy_list(&self.address_sets),
            nat_rules: copy_list(&self.nat_rules),
            sets: copy_list(&self.sets),
        }
    }
}

pub const MAX_RULESET_BYTES: usize = 262144;

pub const MAX_EXPANDED_RULES: usize = 1024;

pub const MAX_INSPECTION_BYTES: usize = 65536;

/// A complete staging artifact for the table that the agent owns.
#[derive(Debug, Clone, PartialEq, Eq)]
pub struct NftablesFirewallStage {
    pub ruleset: String,
    pub validation: NftablesOperation,
    pub activation: NftablesOperation,
    pub coexistence: NftablesCoexistence,
}

#[verifier::ext_equal]
pub struct NftablesFirewallStageView {
    pub ruleset: Seq<char>,
    pub validation: NftablesOperation,
    pub activation: NftablesOperation,
    pub coexistence: NftablesCoexistence,
}

impl View for NftablesFirewallStage {
    type V = NftablesFirewallStageView;

    open spec fn view(&self) -> NftablesFirewallStageView {
        NftablesFirewallStageView {
            ruleset: self.ruleset@,
            validation: self.validation,
            activation: self.activation,
            coexistence: self.coexistence,
        }
    }
}

/// Whether a listing is too long, not of the table, or holds a control character other than line
/// feeds and tabs.
pub open spec fn is_malformed(listing: Seq<char>) -> bool {
    byte_len(listing) > MAX_INSPECTION_BYTES || !has_text(listing, "table inet mbed_agent"@)
        || exists|i: int|
        0 <= i < listing.len() && is_ascii_control(#[trigger] listing[i]) && listing[i] != '\n'
            && listing[i] != '\t'
}

pub open spec fn owner_mark() -> Seq<char> {
    "comment \"mbed-agent-owned:v1\""@
}

pub open spec fn has_owner_mark(listing: Seq<char>) -> bool {
    exists|i: int| 0 <= i < lines(listing).len() && trim(#[trigger] lines(listing)[i]) == owner_mark()
}

/// Who owns the table: nobody, the agent, or an unknown party.
pub open spec fn table_state(listing: Option<Seq<char>>) -> Result<
    NftablesTableState,
    NftablesRenderErrorView,
> {
    match listing {
        None => Ok(NftablesTableState::Absent),
        Some(l) => if is_malformed(l) {
            Err(NftablesRenderErrorView::MalformedInspection)
        } else if has_owner_mark(l) {
            Ok(NftablesTableState::AgentOwned)
        } else {
            Err(NftablesRenderErrorView::ForeignTable)
        },
    }
}

fn malformed(listing: &str, cs: &Vec<char>) -> (r: bool)
    requires
        cs@ == listing@,
    ensures
        r == is_malformed(listing@),
{
    if byte_length(listing) > MAX_INSPECTION_BYTES || !text_in(listing, "table inet mbed_agent") {
        return true;
    }
    let mut i: usize = 0;
    while i < cs.len()
        invariant
            i <= cs@.len(),
            cs@ == listing@,
            byte_len(listing@) <= MAX_INSPECTION_BYTES,
            has_text(listing@, "table inet mbed_agent"@),
            forall|j: int|
                0 <= j < i ==> !(is_ascii_control(#[trigger] cs@[j]) && cs@[j] != '\n' && cs@[j]
                    != '\t'),
        decreases cs@.len() - i,
    {
        if ascii_control(cs[i]) && cs[i] != '\n' && cs[i] != '\t' {
            assert(is_ascii_control(listing@[i as int]));
            return true;
        }
        i = i + 1;
    }
    false
}

/// Classifies the listing of the table; there is none where the table does not exist.
///
/// A table without the exact ownership comment belongs to someone else and is not taken over.
pub fn inspect_nftables_table_state(listing: Option<&str>) -> (r: Result<
    NftablesTableState,
    NftablesRenderError,
>)
    ensures
        vres(r) == table_state(text_view(listing)),
{
    let l = match listing {
        None => {
            return Ok(NftablesTableState::Absent);
        },
        Some(l) => l,
    };
    let cs = chars_of(l);
    if malformed(l, &cs) {
        return Err(NftablesRenderError::MalformedInspection);
    }
    let rows = split_lines(cs.as_slice());
    let mut i: usize = 0;
    while i < rows.len()
        invariant
            i <= rows@.len(),
            listing == Some(l),
            !is_malformed(l@),
            views(rows@) == lines(l@),
            forall|j: int| 0 <= j < i ==> trim(#[trigger] lines(l@)[j]) != owner_mark(),
        decreases rows@.len() - i,
    {
        assert(lines(l@)[i as int] == rows@[i as int]@);
        if chars_are(trimmed(rows[i].as_slice()), "comment \"mbed-agent-owned:v1\"") {
            assert(trim(lines(l@)[i as int]) == owner_mark());
            return Ok(NftablesTableState::AgentOwned);
        }
        i = i + 1;
    }
    Err(NftablesRenderError::ForeignTable)
}

pub open spec fn projection_error(e: FirewallProjectionError) -> NftablesRenderErrorView {
    match e {
        FirewallProjectionError::InvalidObject => NftablesRenderErrorView::InvalidObject,
        FirewallProjectionError::Ownership => NftablesRenderErrorView::Ownership,
        FirewallProjectionError::PlanMismatch => NftablesRenderErrorView::PlanMismatch,
    }
}

pub open spec fn unsupported<T>(field: Seq<char>) -> Result<T, NftablesRenderErrorView> {
    Err(NftablesRenderErrorView::UnsupportedField(field))
}

/// The 64-bit FNV-1a hash of the bytes from `i` on, behind `h`.
pub open spec fn fnv_from(h: u64, bytes: Seq<u8>, i: int) -> u64
    decreases bytes.len() - i,
{
    if i < 0 || i >= bytes.len() {
        h
    } else {
        fnv_from((h ^ (bytes[i] as u64)).wrapping_mul(0x100_0000_01b3), bytes, i + 1)
    }
}

/// A text with zeros before it, up to sixteen characters.
pub open spec fn padded(s: Seq<char>) -> Seq<char> {
    if s.len() < 16 {
        Seq::new((16 - s.len()) as nat, |i: int| '0') + s
    } else {
        s
    }
}

/// The native name of a set.
pub open spec fn set_name(id: Seq<char>) -> Seq<char> {
    "s_"@ + padded(
        hex(fnv_from(0xcbf2_9ce4_8422_2325, encode_utf8(id), 0) as nat),
    )
}

pub open spec fn set_type_of(s: FirewallAddressSetView) -> Option<NftSetType> {
    if s.entries.len() == 0 {
        None
    } else {
        match s.entries[0] {
            FirewallSetEntryView::Network(_) => match s.family {
                FirewallFamily::Ipv4 => Some(NftSetType::Ipv4Network),
                FirewallFamily::Ipv6 => Some(NftSetType::Ipv6Network),
                FirewallFamily::Any => None,
            },
            FirewallSetEntryView::Mac(_) => Some(NftSetType::Mac),
            FirewallSetEntryView::Port(_) => Some(NftSetType::Port),
        }
    }
}

pub open spec fn has_name(sets: Seq<NftSetView>, name: Seq<char>) -> bool {
    exists|i: int| 0 <= i < sets.len() && (#[trigger] sets[i]).name == name
}

/// A context with one more object.
pub open spec fn with_object(c: RenderContextView, o: FirewallObjectView) -> Result<
    RenderContextView,
    NftablesRenderErrorView,
> {
    match o {
        FirewallObjectView::Zone(z) => if z.mtu_fix {
            unsupported("generic nftables zone MTU fixing"@)
        } else {
            Ok(RenderContextView { zones: c.zones.push(z), ..c })
        },
        FirewallObjectView::Forwarding(f) => Ok(
            RenderContextView { forwardings: c.forwardings.push(f), ..c },
        ),
        FirewallObjectView::FilterRule(r) => Ok(
            RenderContextView {
                filter_rules: c.filter_rules.insert(filter_slot(c.filter_rules, r, 0), r),
                ..c
            },
        ),
        FirewallObjectView::NatRule(r) => Ok(
            RenderContextView {
                nat_rules: c.nat_rules.insert(nat_slot(c.nat_rules, r, 0), r),
                ..c
            },
        ),
        FirewallObjectView::AddressSet(s) => if has_name(c.sets, set_name(s.id)) {
            Err(NftablesRenderErrorView::NameCollision)
        } else {
            match set_type_of(s) {
                None => Err(NftablesRenderErrorView::InvalidObject),
                Some(value_type) => Ok(
                    RenderContextView {
                        address_sets: c.address_sets.push(s),
                        sets: c.sets.push(
                            NftSetView {
                                id: s.id,
                                name: set_name(s.id),
                                value_type,
                                enabled: s.enabled,
                            },
                        ),
                        ..c
                    },
                ),
            }
        },
    }
}

/// The context of the objects from `i` on.
pub open spec fn context_from(
    c: RenderContextView,
    objects: Seq<FirewallObjectView>,
    i: int,
) -> Result<RenderContextView, NftablesRenderErrorView>
    decreases objects.len() - i,
{
    if i < 0 || i >= objects.len() {
        Ok(c)
    } else {
        match with_object(c, objects[i]) {
            Err(e) => Err(e),
            Ok(next) => context_from(next, objects, i + 1),
        }
    }
}

pub open spec fn has_zone(zones: Seq<FirewallZoneView>, id: Seq<char>) -> bool {
    exists|i: int| 0 <= i < zones.len() && (#[trigger] zones[i]).id == id
}

/// Whether each forwarding leads between zones that exist.
pub open spec fn is_linked(c: RenderContextView) -> bool {
    forall|i: int|
        0 <= i < c.forwardings.len() ==> has_zone(
            c.zones,
            (#[trigger] c.forwardings[i]).source_zone,
        ) && has_zone(c.zones, c.forwardings[i].destination_zone)
}

pub open spec fn empty_context() -> RenderContextView {
    RenderContextView {
        zones: Seq::empty(),
        forwardings: Seq::empty(),
        filter_rules: Seq::empty(),
        address_sets: Seq::empty(),
        nat_rules: Seq::empty(),
        sets: Seq::empty(),
    }
}

pub open spec fn context_of(objects: Seq<FirewallObjectView>) -> Result<
    RenderContextView,
    NftablesRenderErrorView,
> {
    match context_from(empty_context(), objects, 0) {
        Err(e) => Err(e),
        Ok(c) => if is_linked(c) {
            Ok(c)
        } else {
            Err(NftablesRenderErrorView::MissingReference)
        },
    }
}

/// The first set of a name from `i` on.
pub open spec fn set_from(sets: Seq<NftSetView>, id: Seq<char>, i: int) -> Option<NftSetView>
    decreases sets.len() - i,
{
    if i < 0 || i >= sets.len() {
        None
    } else if sets[i].id == id {
        Some(sets[i])
    } else {
        set_from(sets, id, i + 1)
    }
}

pub open spec fn entry_text(e: FirewallSetEntryView) -> Seq<char> {
    match e {
        FirewallSetEntryView::Network(n) => network_format(n),
        FirewallSetEntryView::Mac(m) => m,
        FirewallSetEntryView::Port(p) => port_text(p),
    }
}

pub open spec fn entry_texts(e: Seq<FirewallSetEntryView>) -> Seq<Seq<char>> {
    Seq::new(e.len(), |i: int| entry_text(e[i]))
}

/// The native type of a set, and whether its elements are intervals.
pub open spec fn type_lines(t: NftSetType) -> Seq<char> {
    match t {
        NftSetType::Ipv4Network => "        type ipv4_addr\n        flags interval\n"@,
        NftSetType::Ipv6Network => "        type ipv6_addr\n        flags interval\n"@,
        NftSetType::Mac => "        type ether_addr\n"@,
        NftSetType::Port => "        type inet_service\n        flags interval\n"@,
    }
}

pub open spec fn set_block(name: Seq<char>, t: NftSetType, entries: Seq<FirewallSetEntryView>) -> Seq<
    char,
> {
    "    set "@ + name + " {\n"@ + type_lines(t) + "        elements = { "@ + joined(
        entry_texts(entries),
        ", "@,
    ) + " }\n    }\n"@
}

/// The blocks of the sets from `i` on, behind `acc`.
pub open spec fn sets_text(acc: Seq<char>, c: RenderContextView, i: int) -> Result<
    Seq<char>,
    NftablesRenderErrorView,
>
    decreases c.address_sets.len() - i,
{
    if i < 0 || i >= c.address_sets.len() {
        Ok(acc)
    } else if !c.address_sets[i].enabled {
        sets_text(acc, c, i + 1)
    } else {
        match set_from(c.sets, c.address_sets[i].id, 0) {
            None => Err(NftablesRenderErrorView::MissingReference),
            Some(s) => sets_text(
                acc + set_block(s.name, s.value_type, c.address_sets[i].entries),
                c,
                i + 1,
            ),
        }
    }
}

/// A quoted text: not empty, at most 128 bytes, without quotes, backslashes or control characters.
pub open spec fn quoted_value(s: Seq<char>) -> Option<Seq<char>> {
    if is_double_quotable(s) && byte_len(s) <= 128 {
        Some("\""@ + s + "\""@)
    } else {
        None
    }
}

/// A key with one value, or with a set of them.
pub open spec fn atom_set(key: Seq<char>, values: Seq<Seq<char>>) -> Seq<char> {
    if values.len() == 1 {
        key + " "@ + values[0]
    } else {
        key + " { "@ + joined(values, ", "@) + " }"@
    }
}

pub open spec fn string_set(key: Seq<char>, values: Seq<Seq<char>>) -> Result<
    Seq<char>,
    NftablesRenderErrorView,
> {
    match map_all(values, |s: Seq<char>| quoted_value(s)) {
        None => Err(NftablesRenderErrorView::UnsafeValue),
        Some(q) => Ok(atom_set(key, q)),
    }
}

/// The parts with one more, where it is wanted and can be rendered.
pub open spec fn then_part(
    parts: Result<Seq<Seq<char>>, NftablesRenderErrorView>,
    wanted: bool,
    part: Result<Seq<char>, NftablesRenderErrorView>,
) -> Result<Seq<Seq<char>>, NftablesRenderErrorView> {
    match parts {
        Err(e) => Err(e),
        Ok(p) => if !wanted {
            Ok(p)
        } else {
            match part {
                Err(e) => Err(e),
                Ok(t) => Ok(p.push(t)),
            }
        },
    }
}

pub open spec fn is_mixed(n: Seq<IpNetwork>) -> bool {
    exists|i: int|
        0 <= i < n.len() && ((#[trigger] n[i]).address is V4) != (n[0].address is V4)
}

/// Whether a rule names networks of both families.
pub open spec fn mixes_families(m: FirewallMatchView) -> bool {
    is_mixed(m.source_networks + m.destination_networks)
}

/// Why a match cannot be written, if its shape is at fault.
pub open spec fn shape_error(m: FirewallMatchView) -> Option<Seq<char>> {
    if (m.source_ports.len() > 0 || m.destination_ports.len() > 0) && exists|i: int|
        0 <= i < m.protocols.len() && #[trigger] m.protocols[i] != FirewallProtocol::Tcp
            && m.protocols[i] != FirewallProtocol::Udp {
        Some("ports combined with a non-transport protocol"@)
    } else if mixes_families(m) {
        Some("mixed IPv4/IPv6 networks in one rule"@)
    } else {
        None
    }
}

pub open spec fn networks_part(direction: Seq<char>, n: Seq<IpNetwork>) -> Result<
    Seq<char>,
    NftablesRenderErrorView,
> {
    if is_mixed(n) {
        unsupported("mixed IPv4/IPv6 network list"@)
    } else {
        Ok(
            atom_set(
                (if n[0].address is V4 {
                    "ip "@
                } else {
                    "ip6 "@
                }) + direction,
                network_texts(n),
            ),
        )
    }
}

pub open spec fn icmp_part(m: FirewallMatchView) -> Result<Seq<char>, NftablesRenderErrorView> {
    let v4 = m.protocols.contains(FirewallProtocol::Icmp);
    let v6 = m.protocols.contains(FirewallProtocol::Icmpv6);
    if v4 == v6 {
        unsupported("ICMP types require exactly one ICMP family"@)
    } else {
        Ok(
            atom_set(
                if v4 {
                    "icmp type"@
                } else {
                    "icmpv6 type"@
                },
                byte_texts(m.icmp_types),
            ),
        )
    }
}

pub open spec fn state_name(s: FirewallConntrackState) -> Seq<char> {
    match s {
        FirewallConntrackState::New => "new"@,
        FirewallConntrackState::Established => "established"@,
        FirewallConntrackState::Related => "related"@,
        FirewallConntrackState::Invalid => "invalid"@,
    }
}

pub open spec fn state_texts(s: Seq<FirewallConntrackState>) -> Seq<Seq<char>> {
    Seq::new(s.len(), |i: int| state_name(s[i]))
}

pub open spec fn protocol_texts(s: Seq<FirewallProtocol>) -> Seq<Seq<char>> {
    Seq::new(s.len(), |i: int| protocol_name(s[i]))
}

pub open spec fn family_takes(f: FirewallFamily, t: NftSetType) -> bool {
    match f {
        FirewallFamily::Any => true,
        FirewallFamily::Ipv4 => t != NftSetType::Ipv6Network,
        FirewallFamily::Ipv6 => t != NftSetType::Ipv4Network,
    }
}

pub open spec fn dimension_of(t: NftSetType) -> int {
    match t {
        NftSetType::Ipv4Network => 0,
        NftSetType::Ipv6Network => 0,
        NftSetType::Mac => 1,
        NftSetType::Port => 2,
    }
}

pub open spec fn dimension_used(sets: Seq<NftSetView>, ids: Seq<Seq<char>>, i: int) -> bool {
    exists|j: int|
        0 <= j < i && (set_from(sets, #[trigger] ids[j], 0) matches Some(a) && set_from(
            sets,
            ids[i],
            0,
        ) matches Some(b) && dimension_of(a.value_type) == dimension_of(b.value_type))
}

/// Whether the sets from `i` on exist, fit the family and restrict different dimensions.
pub open spec fn sets_compose(
    sets: Seq<NftSetView>,
    ids: Seq<Seq<char>>,
    family: FirewallFamily,
    i: int,
) -> Result<(), NftablesRenderErrorView>
    decreases ids.len() - i,
{
    if i < 0 || i >= ids.len() {
        Ok(())
    } else {
        match set_from(sets, ids[i], 0) {
            None => Err(NftablesRenderErrorView::MissingReference),
            Some(s) => if !family_takes(family, s.value_type) {
                unsupported("address-set family does not match rule family"@)
            } else if dimension_used(sets, ids, i) {
                unsupported("multiple same-dimension sets require rule expansion"@)
            } else {
                sets_compose(sets, ids, family, i + 1)
            },
        }
    }
}

pub open spec fn set_expression(t: NftSetType, source: bool) -> Seq<char> {
    match (t, source) {
        (NftSetType::Ipv4Network, true) => "ip saddr"@,
        (NftSetType::Ipv4Network, false) => "ip daddr"@,
        (NftSetType::Ipv6Network, true) => "ip6 saddr"@,
        (NftSetType::Ipv6Network, false) => "ip6 daddr"@,
        (NftSetType::Mac, true) => "ether saddr"@,
        (NftSetType::Mac, false) => "ether daddr"@,
        (NftSetType::Port, true) => "th sport"@,
        (NftSetType::Port, false) => "th dport"@,
    }
}

/// The parts with a match for each set from `i` on.
pub open spec fn set_parts(
    parts: Seq<Seq<char>>,
    sets: Seq<NftSetView>,
    ids: Seq<Seq<char>>,
    source: bool,
    i: int,
) -> Result<Seq<Seq<char>>, NftablesRenderErrorView>
    decreases ids.len() - i,
{
    if i < 0 || i >= ids.len() {
        Ok(parts)
    } else {
        match set_from(sets, ids[i], 0) {
            None => Err(NftablesRenderErrorView::MissingReference),
            Some(s) => if !s.enabled {
                Err(NftablesRenderErrorView::MissingReference)
            } else {
                set_parts(
                    parts.push(set_expression(s.value_type, source) + " @"@ + s.name),
                    sets,
                    ids,
                    source,
                    i + 1,
                )
            },
        }
    }
}

pub open spec fn family_parts(f: FirewallFamily) -> Seq<Seq<char>> {
    match f {
        FirewallFamily::Any => Seq::empty(),
        FirewallFamily::Ipv4 => seq!["meta nfproto ipv4"@],
        FirewallFamily::Ipv6 => seq!["meta nfproto ipv6"@],
    }
}

/// The parts by zones and interfaces.
pub open spec fn placed_parts(
    m: FirewallMatchView,
    direction: FirewallDirection,
    sources: Seq<Seq<char>>,
    destinations: Seq<Seq<char>>,
) -> Result<Seq<Seq<char>>, NftablesRenderErrorView> {
    let source = then_part(
        Ok(family_parts(m.family)),
        sources.len() > 0,
        string_set(
            if direction == FirewallDirection::Output {
                "oifname"@
            } else {
                "iifname"@
            },
            sources,
        ),
    );
    let destination = then_part(
        source,
        destinations.len() > 0,
        if direction == FirewallDirection::Forward {
            string_set("oifname"@, destinations)
        } else {
            unsupported("destination zone for non-forward filter direction"@)
        },
    );
    let input = then_part(
        destination,
        m.input_interfaces.len() > 0,
        string_set("iifname"@, m.input_interfaces),
    );
    then_part(input, m.output_interfaces.len() > 0, string_set("oifname"@, m.output_interfaces))
}

/// The parts with the addresses, protocols, ports, ICMP types and states of a match.
pub open spec fn valued_parts(
    parts: Result<Seq<Seq<char>>, NftablesRenderErrorView>,
    m: FirewallMatchView,
) -> Result<Seq<Seq<char>>, NftablesRenderErrorView> {
    let source = then_part(
        parts,
        m.source_networks.len() > 0,
        networks_part("saddr"@, m.source_networks),
    );
    let destination = then_part(
        source,
        m.destination_networks.len() > 0,
        networks_part("daddr"@, m.destination_networks),
    );
    let macs = then_part(
        destination,
        m.source_macs.len() > 0,
        Ok(atom_set("ether saddr"@, m.source_macs)),
    );
    let protocols = then_part(
        macs,
        m.protocols.len() > 0,
        Ok(atom_set("meta l4proto"@, protocol_texts(m.protocols))),
    );
    let sport = then_part(
        protocols,
        m.source_ports.len() > 0,
        Ok(atom_set("th sport"@, port_texts(m.source_ports))),
    );
    let dport = then_part(
        sport,
        m.destination_ports.len() > 0,
        Ok(atom_set("th dport"@, port_texts(m.destination_ports))),
    );
    let icmp = then_part(dport, m.icmp_types.len() > 0, icmp_part(m));
    then_part(
        icmp,
        m.conntrack_states.len() > 0,
        Ok(atom_set("ct state"@, state_texts(m.conntrack_states))),
    )
}

/// The parts of a match.
pub open spec fn match_parts(
    c: RenderContextView,
    m: FirewallMatchView,
    direction: FirewallDirection,
) -> Result<Seq<Seq<char>>, NftablesRenderErrorView> {
    match shape_error(m) {
        Some(field) => unsupported(field),
        None => match (
            interfaces_of(c.zones, m.source_zones),
            interfaces_of(c.zones, m.destination_zones),
        ) {
            (Some(sources), Some(destinations)) => match valued_parts(
                placed_parts(m, direction, sources, destinations),
                m,
            ) {
                Err(e) => Err(e),
                Ok(parts) => match sets_compose(c.sets, m.source_sets, m.family, 0) {
                    Err(e) => Err(e),
                    Ok(()) => match sets_compose(c.sets, m.destination_sets, m.family, 0) {
                        Err(e) => Err(e),
                        Ok(()) => match set_parts(parts, c.sets, m.source_sets, true, 0) {
                            Err(e) => Err(e),
                            Ok(more) => set_parts(more, c.sets, m.destination_sets, false, 0),
                        },
                    },
                },
            },
            _ => Err(NftablesRenderErrorView::MissingReference),
        },
    }
}

pub open spec fn level_name(l: FirewallLogLevel) -> Seq<char> {
    match l {
        FirewallLogLevel::Emergency => "emerg"@,
        FirewallLogLevel::Alert => "alert"@,
        FirewallLogLevel::Critical => "crit"@,
        FirewallLogLevel::Error => "err"@,
        FirewallLogLevel::Warning => "warn"@,
        FirewallLogLevel::Notice => "notice"@,
        FirewallLogLevel::Info => "info"@,
        FirewallLogLevel::Debug => "debug"@,
    }
}

pub open spec fn verdict_text(v: FirewallVerdict, r: Option<FirewallRejectKind>) -> Result<
    Seq<char>,
    NftablesRenderErrorView,
> {
    match (v, r) {
        (FirewallVerdict::Accept, None) => Ok("accept"@),
        (FirewallVerdict::Drop, None) => Ok("drop"@),
        (FirewallVerdict::Reject, Some(FirewallRejectKind::TcpReset)) => Ok(
            "reject with tcp reset"@,
        ),
        (FirewallVerdict::Reject, Some(FirewallRejectKind::IcmpPortUnreachable)) => Ok(
            "reject with icmp type port-unreachable"@,
        ),
        (FirewallVerdict::Reject, Some(FirewallRejectKind::IcmpHostUnreachable)) => Ok(
            "reject with icmp type host-unreachable"@,
        ),
        (FirewallVerdict::Reject, Some(FirewallRejectKind::Icmp6PortUnreachable)) => Ok(
            "reject with icmpv6 type port-unreachable"@,
        ),
        _ => Err(NftablesRenderErrorView::InvalidObject),
    }
}

pub open spec fn limit_part(l: Option<FirewallRateLimit>) -> Seq<char> {
    match l {
        Some(l) => "limit rate "@ + decimal(l.packets_per_second as nat) + "/second burst "@
            + decimal(l.burst as nat) + " packets"@,
        None => Seq::empty(),
    }
}

pub open spec fn log_part(r: FirewallFilterRuleView) -> Result<Seq<char>, NftablesRenderErrorView> {
    match r.log {
        Some(log) => match quoted_value(log.prefix) {
            Some(q) => Ok("log prefix "@ + q + " level "@ + level_name(log.level)),
            None => Err(NftablesRenderErrorView::UnsafeValue),
        },
        None => Ok(Seq::empty()),
    }
}

pub open spec fn comment_part(id: Seq<char>) -> Result<Seq<char>, NftablesRenderErrorView> {
    match quoted_value(id) {
        Some(q) => Ok("comment "@ + q),
        None => Err(NftablesRenderErrorView::UnsafeValue),
    }
}

pub open spec fn rule_text(parts: Result<Seq<Seq<char>>, NftablesRenderErrorView>) -> Result<
    Seq<char>,
    NftablesRenderErrorView,
> {
    match parts {
        Err(e) => Err(e),
        Ok(p) => Ok(joined(p, " "@)),
    }
}

pub open spec fn filter_rule_text(c: RenderContextView, r: FirewallFilterRuleView) -> Result<
    Seq<char>,
    NftablesRenderErrorView,
> {
    let limited = then_part(
        match_parts(c, r.matches, r.direction),
        r.rate_limit is Some,
        Ok(limit_part(r.rate_limit)),
    );
    let logged = then_part(limited, r.log is Some, log_part(r));
    let decided = then_part(logged, true, verdict_text(r.verdict, r.reject_with));
    rule_text(then_part(decided, true, comment_part(r.id)))
}

pub open spec fn is_prerouting(k: FirewallNatKind) -> bool {
    k == FirewallNatKind::DestinationNat || k == FirewallNatKind::Redirect
}

pub open spec fn endpoint(a: IpAddr, p: Option<PortRange>) -> Seq<char> {
    match p {
        None => address_format(a),
        Some(p) => match a {
            IpAddr::V4(_) => address_format(a) + ":"@ + port_text(p),
            IpAddr::V6(_) => "["@ + address_format(a) + "]:"@ + port_text(p),
        },
    }
}

pub open spec fn translation(verb: Seq<char>, a: IpAddr, p: Option<PortRange>) -> Seq<char> {
    verb + (if a is V4 {
        " ip to "@
    } else {
        " ip6 to "@
    }) + endpoint(a, p)
}

pub open spec fn action_part(r: FirewallNatRuleView) -> Result<Seq<char>, NftablesRenderErrorView> {
    match r.kind {
        FirewallNatKind::Masquerade => Ok("masquerade"@),
        FirewallNatKind::Redirect => match r.translation_port {
            None => Err(NftablesRenderErrorView::InvalidObject),
            Some(p) => Ok("redirect to :"@ + port_text(p)),
        },
        FirewallNatKind::DestinationNat => match r.translation_address {
            None => Err(NftablesRenderErrorView::InvalidObject),
            Some(a) => Ok(translation("dnat"@, a, r.translation_port)),
        },
        FirewallNatKind::SourceNat => match r.translation_address {
            None => Err(NftablesRenderErrorView::InvalidObject),
            Some(a) => Ok(translation("snat"@, a, r.translation_port)),
        },
    }
}

pub open spec fn nat_rule_text(c: RenderContextView, r: FirewallNatRuleView) -> Result<
    Seq<char>,
    NftablesRenderErrorView,
> {
    if is_prerouting(r.kind) && r.matches.destination_zones.len() > 0 {
        unsupported("DNAT destination-zone matching is not stable in prerouting"@)
    } else {
        let parts = match_parts(
            c,
            r.matches,
            if is_prerouting(r.kind) {
                FirewallDirection::Input
            } else {
                FirewallDirection::Forward
            },
        );
        rule_text(then_part(then_part(parts, true, action_part(r)), true, comment_part(r.id)))
    }
}

pub open spec fn indented(text: Seq<char>) -> Seq<char> {
    "        "@ + text + "\n"@
}

/// The filter rules of a direction from `i` on, behind `acc`.
pub open spec fn filter_rules_text(
    acc: Seq<char>,
    c: RenderContextView,
    direction: FirewallDirection,
    i: int,
) -> Result<Seq<char>, NftablesRenderErrorView>
    decreases c.filter_rules.len() - i,
{
    if i < 0 || i >= c.filter_rules.len() {
        Ok(acc)
    } else if !(c.filter_rules[i].enabled && c.filter_rules[i].direction == direction) {
        filter_rules_text(acc, c, direction, i + 1)
    } else {
        match filter_rule_text(c, c.filter_rules[i]) {
            Err(e) => Err(e),
            Ok(t) => filter_rules_text(acc + indented(t), c, direction, i + 1),
        }
    }
}

/// The translation rules of a chain from `i` on, behind `acc`.
pub open spec fn nat_rules_text(
    acc: Seq<char>,
    c: RenderContextView,
    prerouting: bool,
    i: int,
) -> Result<Seq<char>, NftablesRenderErrorView>
    decreases c.nat_rules.len() - i,
{
    if i < 0 || i >= c.nat_rules.len() {
        Ok(acc)
    } else if !(c.nat_rules[i].enabled && is_prerouting(c.nat_rules[i].kind) == prerouting) {
        nat_rules_text(acc, c, prerouting, i + 1)
    } else {
        match nat_rule_text(c, c.nat_rules[i]) {
            Err(e) => Err(e),
            Ok(t) => nat_rules_text(acc + indented(t), c, prerouting, i + 1),
        }
    }
}

pub open spec fn forward_line(input: Seq<char>, output: Seq<char>, id: Seq<char>) -> Option<
    Seq<char>,
> {
    match (quoted_value(input), quoted_value(output), quoted_value(id)) {
        (Some(a), Some(b), Some(c)) => Some(
            "        iifname "@ + a + " oifname "@ + b + " accept comment "@ + c + "\n"@,
        ),
        _ => None,
    }
}

/// The rules from one interface to those from `j` on, behind `acc`.
pub open spec fn forward_to(
    acc: Seq<char>,
    input: Seq<char>,
    outputs: Seq<Seq<char>>,
    id: Seq<char>,
    j: int,
) -> Option<Seq<char>>
    decreases outputs.len() - j,
{
    if j < 0 || j >= outputs.len() {
        Some(acc)
    } else {
        match forward_line(input, outputs[j], id) {
            None => None,
            Some(l) => forward_to(acc + l, input, outputs, id, j + 1),
        }
    }
}

/// The rules from the interfaces from `i` on, behind `acc`.
pub open spec fn forward_all(
    acc: Seq<char>,
    inputs: Seq<Seq<char>>,
    outputs: Seq<Seq<char>>,
    id: Seq<char>,
    i: int,
) -> Option<Seq<char>>
    decreases inputs.len() - i,
{
    if i < 0 || i >= inputs.len() {
        Some(acc)
    } else {
        match forward_to(acc, inputs[i], outputs, id, 0) {
            None => None,
            Some(next) => forward_all(next, inputs, outputs, id, i + 1),
        }
    }
}

/// The forwardings from `i` on, behind `acc`, where `count` rules came before.
pub open spec fn forwardings_text(acc: Seq<char>, c: RenderContextView, count: int, i: int) -> Result<
    Seq<char>,
    NftablesRenderErrorView,
>
    decreases c.forwardings.len() - i,
{
    if i < 0 || i >= c.forwardings.len() {
        Ok(acc)
    } else if !c.forwardings[i].enabled {
        forwardings_text(acc, c, count, i + 1)
    } else {
        match (
            zone_from(c.zones, c.forwardings[i].source_zone, 0),
            zone_from(c.zones, c.forwardings[i].destination_zone, 0),
        ) {
            (Some(s), Some(t)) => {
                let total = count + s.networks.len() * t.networks.len();
                if total > MAX_EXPANDED_RULES {
                    Err(NftablesRenderErrorView::Capacity)
                } else {
                    match forward_all(acc, s.networks, t.networks, c.forwardings[i].id, 0) {
                        None => Err(NftablesRenderErrorView::UnsafeValue),
                        Some(next) => forwardings_text(next, c, total, i + 1),
                    }
                }
            },
            _ => Err(NftablesRenderErrorView::MissingReference),
        }
    }
}

pub open spec fn verdict_name(v: FirewallVerdict) -> Seq<char> {
    match v {
        FirewallVerdict::Accept => "accept"@,
        FirewallVerdict::Drop => "drop"@,
        FirewallVerdict::Reject => "reject"@,
    }
}

pub open spec fn policy_verdict(z: FirewallZoneView, direction: FirewallDirection) -> FirewallVerdict {
    match direction {
        FirewallDirection::Input => z.input,
        FirewallDirection::Output => z.output,
        FirewallDirection::Forward => z.forward,
    }
}

/// One line for an interface of a zone.
pub open spec fn zone_line(
    key: Seq<char>,
    interface: Seq<char>,
    action: Seq<char>,
    label: Seq<char>,
) -> Option<Seq<char>> {
    match (quoted_value(interface), quoted_value(label)) {
        (Some(a), Some(b)) => Some(
            "        "@ + key + " "@ + a + " "@ + action + " comment "@ + b + "\n"@,
        ),
        _ => None,
    }
}

/// One line for each interface from `i` on, behind `acc`.
pub open spec fn zone_lines(
    acc: Seq<char>,
    key: Seq<char>,
    interfaces: Seq<Seq<char>>,
    action: Seq<char>,
    label: Seq<char>,
    i: int,
) -> Option<Seq<char>>
    decreases interfaces.len() - i,
{
    if i < 0 || i >= interfaces.len() {
        Some(acc)
    } else {
        match zone_line(key, interfaces[i], action, label) {
            None => None,
            Some(l) => zone_lines(acc + l, key, interfaces, action, label, i + 1),
        }
    }
}

/// The policies of the zones from `i` on, behind `acc`.
pub open spec fn policies_text(
    acc: Seq<char>,
    zones: Seq<FirewallZoneView>,
    direction: FirewallDirection,
    i: int,
) -> Result<Seq<char>, NftablesRenderErrorView>
    decreases zones.len() - i,
{
    if i < 0 || i >= zones.len() {
        Ok(acc)
    } else if !zones[i].enabled {
        policies_text(acc, zones, direction, i + 1)
    } else {
        match zone_lines(
            acc,
            if direction == FirewallDirection::Output {
                "oifname"@
            } else {
                "iifname"@
            },
            zones[i].networks,
            verdict_name(policy_verdict(zones[i], direction)),
            "zone:"@ + zones[i].id,
            0,
        ) {
            None => Err(NftablesRenderErrorView::UnsafeValue),
            Some(next) => policies_text(next, zones, direction, i + 1),
        }
    }
}

/// The masquerading of the zones from `i` on, behind `acc`.
pub open spec fn masquerades_text(acc: Seq<char>, zones: Seq<FirewallZoneView>, i: int) -> Result<
    Seq<char>,
    NftablesRenderErrorView,
>
    decreases zones.len() - i,
{
    if i < 0 || i >= zones.len() {
        Ok(acc)
    } else if !(zones[i].enabled && zones[i].masquerade) {
        masquerades_text(acc, zones, i + 1)
    } else {
        match zone_lines(
            acc,
            "oifname"@,
            zones[i].networks,
            "masquerade"@,
            "zone-masq:"@ + zones[i].id,
            0,
        ) {
            None => Err(NftablesRenderErrorView::UnsafeValue),
            Some(next) => masquerades_text(next, zones, i + 1),
        }
    }
}

pub open spec fn direction_name(d: FirewallDirection) -> Seq<char> {
    match d {
        FirewallDirection::Input => "input"@,
        FirewallDirection::Output => "output"@,
        FirewallDirection::Forward => "forward"@,
    }
}

pub open spec fn chain_head(d: FirewallDirection) -> Seq<char> {
    "    chain "@ + direction_name(d) + " {\n        type filter hook "@ + direction_name(d)
        + " priority -5; policy accept;\n"@
}

/// The chain of a direction behind `acc`.
pub open spec fn filter_chain_text(acc: Seq<char>, c: RenderContextView, d: FirewallDirection) -> Result<
    Seq<char>,
    NftablesRenderErrorView,
> {
    match filter_rules_text(acc + chain_head(d), c, d, 0) {
        Err(e) => Err(e),
        Ok(t1) => match (if d == FirewallDirection::Forward {
            forwardings_text(t1, c, 0, 0)
        } else {
            Ok(t1)
        }) {
            Err(e) => Err(e),
            Ok(t2) => match policies_text(t2, c.zones, d, 0) {
                Err(e) => Err(e),
                Ok(t3) => Ok(t3 + "    }\n"@),
            },
        },
    }
}

/// The translation chains behind `acc`.
pub open spec fn nat_chains_text(acc: Seq<char>, c: RenderContextView) -> Result<
    Seq<char>,
    NftablesRenderErrorView,
> {
    match nat_rules_text(
        acc
            + "    chain prerouting {\n        type nat hook prerouting priority -90; policy accept;\n"@,
        c,
        true,
        0,
    ) {
        Err(e) => Err(e),
        Ok(t1) => match masquerades_text(t1, c.zones, 0) {
            Err(e) => Err(e),
            Ok(t2) => match nat_rules_text(
                t2 + "    }\n"@
                    + "    chain postrouting {\n        type nat hook postrouting priority 110; policy accept;\n"@,
                c,
                false,
                0,
            ) {
                Err(e) => Err(e),
                Ok(t3) => Ok(t3 + "    }\n"@),
            },
        },
    }
}

pub open spec fn table_head(state: NftablesTableState) -> Seq<char> {
    (if state == NftablesTableState::AgentOwned {
        "delete table inet mbed_agent\n"@
    } else {
        Seq::empty()
    }) + "table inet mbed_agent {\n    comment \"mbed-agent-owned:v1\"\n"@
}

/// The ruleset of a context.
#[verifier::opaque]
pub open spec fn ruleset_text(c: RenderContextView, state: NftablesTableState) -> Result<
    Seq<char>,
    NftablesRenderErrorView,
> {
    match sets_text(table_head(state), c, 0) {
        Err(e) => Err(e),
        Ok(t0) => match filter_chain_text(t0, c, FirewallDirection::Input) {
            Err(e) => Err(e),
            Ok(t1) => match filter_chain_text(t1, c, FirewallDirection::Output) {
                Err(e) => Err(e),
                Ok(t2) => match filter_chain_text(t2, c, FirewallDirection::Forward) {
                    Err(e) => Err(e),
                    Ok(t3) => match nat_chains_text(t3, c) {
                        Err(e) => Err(e),
                        Ok(t4) => if byte_len(t4 + "}\n"@) > MAX_RULESET_BYTES {
                            Err(NftablesRenderErrorView::Capacity)
                        } else {
                            Ok(t4 + "}\n"@)
                        },
                    },
                },
            },
        },
    }
}

/// The stage that an inventory and a plan become.
pub open spec fn nftables_stage(
    objects: Seq<FirewallObjectView>,
    valid: Seq<bool>,
    changes: Seq<FirewallPlannedChangeView>,
    state: NftablesTableState,
) -> Result<NftablesFirewallStageView, NftablesRenderErrorView> {
    match projected(objects, valid, changes) {
        Err(e) => Err(projection_error(e)),
        Ok(owned) => match context_of(owned) {
            Err(e) => Err(e),
            Ok(c) => match ruleset_text(c, state) {
                Err(e) => Err(e),
                Ok(ruleset) => Ok(
                    NftablesFirewallStageView {
                        ruleset,
                        validation: NftablesOperation::Check,
                        activation: NftablesOperation::Load,
                        coexistence: NftablesCoexistence::IsolatedAdditive,
                    },
                ),
            },
        },
    }
}

fn native_name(id: &str) -> (r: String)
    ensures
        r@ == set_name(id@),
{
    let bytes = id.as_bytes();
    let mut h: u64 = 0xcbf2_9ce4_8422_2325;
    let mut i: usize = 0;
    while i < bytes.len()
        invariant
            i <= bytes@.len(),
            bytes@ == encode_utf8(id@),
            fnv_from(h, bytes@, i as int) == fnv_from(0xcbf2_9ce4_8422_2325, bytes@, 0),
        decreases bytes@.len() - i,
    {
        h = (h ^ (bytes[i] as u64)).wrapping_mul(0x100_0000_01b3);
        i = i + 1;
    }
    let digits = hex_text(h);
    let mut r = "s_".to_owned();
    let n: usize = chars_of(digits.as_str()).len();
    let mut pad = String::new();
    let mut k: usize = n;
    while k < 16
        invariant
            n <= k,
            k <= 16 || k == n,
            n == digits@.len(),
            pad@ =~= Seq::new((k - n) as nat, |i: int| '0'),
        decreases 16 - k,
    {
        pad.push('0');
        k = k + 1;
    }
    pad.append(digits.as_str());
    assert(pad@ =~= padded(digits@));
    r.append(pad.as_str());
    r
}

fn set_type(value: &FirewallAddressSet) -> (r: Option<NftSetType>)
    ensures
        r == set_type_of(value@),
{
    if value.entries.len() == 0 {
        return None;
    }
    assert(value@.entries[0] == value.entries@[0]@);
    match &value.entries[0] {
        FirewallSetEntry::Network(_) => match value.family {
            FirewallFamily::Ipv4 => Some(NftSetType::Ipv4Network),
            FirewallFamily::Ipv6 => Some(NftSetType::Ipv6Network),
            FirewallFamily::Any => None,
        },
        FirewallSetEntry::Mac(_) => Some(NftSetType::Mac),
        FirewallSetEntry::Port(_) => Some(NftSetType::Port),
    }
}

fn name_taken(sets: &Vec<NftSet>, name: &str) -> (r: bool)
    ensures
        r == has_name(views(sets@), name@),
{
    let ghost all = views(sets@);
    let mut i: usize = 0;
    while i < sets.len()
        invariant
            i <= sets@.len(),
            all == views(sets@),
            forall|j: int| 0 <= j < i ==> (#[trigger] all[j]).name != name@,
        decreases sets@.len() - i,
    {
        assert(all[i as int] == sets@[i as int]@);
        if same(sets[i].name.as_str(), name) {
            return true;
        }
        i = i + 1;
    }
    false
}

fn zone_known(zones: &Vec<FirewallZone>, id: &str) -> (r: bool)
    ensures
        r == has_zone(views(zones@), id@),
{
    let ghost all = views(zones@);
    let mut i: usize = 0;
    while i < zones.len()
        invariant
            i <= zones@.len(),
            all == views(zones@),
            forall|j: int| 0 <= j < i ==> (#[trigger] all[j]).id != id@,
        decreases zones@.len() - i,
    {
        assert(all[i as int] == zones@[i as int]@);
        if same(zones[i].id.as_str(), id) {
            return true;
        }
        i = i + 1;
    }
    false
}

/// Quotes a text that can be quoted.
fn nft_string(value: &str) -> (r: Option<String>)
    ensures
        opt(r) == quoted_value(value@),
{
    if !double_quotable(value) || byte_length(value) > 128 {
        return None;
    }
    let mut r = "\"".to_owned();
    r.append(value);
    r.append("\"");
    Some(r)
}

fn render_atom_set(key: &str, values: &Vec<String>) -> (r: String)
    ensures
        r@ == atom_set(key@, views(values@)),
{
    let mut r = key.to_owned();
    if values.len() == 1 {
        assert(views(values@)[0] == values@[0]@);
        r.append(" ");
        r.append(values[0].as_str());
    } else {
        r.append(" { ");
        r.append(join_texts(values, ", ").as_str());
        r.append(" }");
    }
    r
}

fn render_string_set(key: &str, values: &Vec<String>) -> (r: Result<String, NftablesRenderError>)
    ensures
        vres(r) == string_set(key@, views(values@)),
{
    let ghost all = views(values@);
    let ghost f = |s: Seq<char>| quoted_value(s);
    let mut q: Vec<String> = Vec::new();
    let mut i: usize = 0;
    while i < values.len()
        invariant
            i <= values@.len(),
            all == views(values@),
            f == (|s: Seq<char>| quoted_value(s)),
            q@.len() == i,
            forall|j: int| 0 <= j < i ==> f(#[trigger] all[j]) is Some,
            forall|j: int| 0 <= j < i ==> #[trigger] views(q@)[j] == f(all[j])->Some_0,
        decreases values@.len() - i,
    {
        assert(all[i as int] == values@[i as int]@);
        match nft_string(values[i].as_str()) {
            Some(t) => {
                assert(f(all[i as int]) == Some(t@));
                q.push(t);
            },
            None => {
                assert(f(all[i as int]) is None);
                return Err(NftablesRenderError::UnsafeValue);
            },
        }
        i = i + 1;
    }
    assert(views(q@) =~= Seq::new(all.len(), |i: int| f(all[i])->Some_0));
    Ok(render_atom_set(key, &q))
}

fn set_entries(entries: &Vec<FirewallSetEntry>) -> (r: Vec<String>)
    ensures
        views(r@) == entry_texts(views(entries@)),
{
    let mut r: Vec<String> = Vec::new();
    let mut i: usize = 0;
    while i < entries.len()
        invariant
            i <= entries@.len(),
            r@.len() == i,
            forall|j: int| 0 <= j < i ==> #[trigger] views(r@)[j] == entry_texts(views(entries@))[j],
        decreases entries@.len() - i,
    {
        assert(views(entries@)[i as int] == entries@[i as int]@);
        let t = match &entries[i] {
            FirewallSetEntry::Network(n) => n.text(),
            FirewallSetEntry::Mac(m) => m.clone(),
            FirewallSetEntry::Port(p) => port(*p),
        };
        r.push(t);
        i = i + 1;
    }
    assert(views(r@) =~= entry_texts(views(entries@)));
    r
}

fn mixed(n: &Vec<IpNetwork>) -> (r: bool)
    ensures
        r == is_mixed(n@),
{
    let mut i: usize = 0;
    while i < n.len()
        invariant
            i <= n@.len(),
            forall|j: int| 0 <= j < i ==> ((#[trigger] n@[j]).address is V4) == (n@[0].address is V4),
        decreases n@.len() - i,
    {
        if n[i].address.is_ipv4() != n[0].address.is_ipv4() {
            return true;
        }
        i = i + 1;
    }
    false
}

fn check_shape(m: &FirewallMatch) -> (r: Option<&'static str>)
    ensures
        text_view(r) == shape_error(m@),
{
    assert(m@.protocols =~= m.protocols@);
    assert(m@.source_networks =~= m.source_networks@);
    assert(m@.destination_networks =~= m.destination_networks@);
    if m.source_ports.len() > 0 || m.destination_ports.len() > 0 {
        let mut i: usize = 0;
        while i < m.protocols.len()
            invariant
                i <= m.protocols@.len(),
                m@.source_ports.len() > 0 || m@.destination_ports.len() > 0,
                m@.protocols == m.protocols@,
                forall|j: int|
                    0 <= j < i ==> #[trigger] m@.protocols[j] == FirewallProtocol::Tcp
                        || m@.protocols[j] == FirewallProtocol::Udp,
            decreases m.protocols@.len() - i,
        {
            if m.protocols[i] != FirewallProtocol::Tcp && m.protocols[i] != FirewallProtocol::Udp {
                assert(m@.protocols[i as int] != FirewallProtocol::Tcp);
                return Some("ports combined with a non-transport protocol");
            }
            i = i + 1;
        }
    }
    let ghost all = m.source_networks@ + m.destination_networks@;
    let mut networks: Vec<IpNetwork> = Vec::new();
    let mut i: usize = 0;
    while i < m.source_networks.len()
        invariant
            i <= m.source_networks@.len(),
            networks@ =~= m.source_networks@.take(i as int),
        decreases m.source_networks@.len() - i,
    {
        networks.push(m.source_networks[i]);
        i = i + 1;
    }
    i = 0;
    while i < m.destination_networks.len()
        invariant
            i <= m.destination_networks@.len(),
            networks@ =~= m.source_networks@ + m.destination_networks@.take(i as int),
        decreases m.destination_networks@.len() - i,
    {
        networks.push(m.destination_networks[i]);
        i = i + 1;
    }
    assert(networks@ =~= all);
    if mixed(&networks) {
        return Some("mixed IPv4/IPv6 networks in one rule");
    }
    None
}

fn render_networks(direction: &str, n: &Vec<IpNetwork>) -> (r: Result<String, NftablesRenderError>)
    requires
        n@.len() > 0,
    ensures
        vres(r) == networks_part(direction@, views(n@)),
{
    assert(views(n@) =~= n@);
    if mixed(n) {
        return Err(NftablesRenderError::UnsupportedField("mixed IPv4/IPv6 network list"));
    }
    let mut key = if n[0].address.is_ipv4() {
        "ip ".to_owned()
    } else {
        "ip6 ".to_owned()
    };
    key.append(direction);
    Ok(render_atom_set(key.as_str(), &texts_of_networks(n)))
}

fn has_protocol(p: &Vec<FirewallProtocol>, q: FirewallProtocol) -> (r: bool)
    ensures
        r == views(p@).contains(q),
{
    has_item(p, &q)
}

fn render_icmp_types(m: &FirewallMatch) -> (r: Result<String, NftablesRenderError>)
    ensures
        vres(r) == icmp_part(m@),
{
    let v4 = has_protocol(&m.protocols, FirewallProtocol::Icmp);
    let v6 = has_protocol(&m.protocols, FirewallProtocol::Icmpv6);
    if v4 == v6 {
        return Err(
            NftablesRenderError::UnsupportedField("ICMP types require exactly one ICMP family"),
        );
    }
    let key = if v4 {
        "icmp type"
    } else {
        "icmpv6 type"
    };
    Ok(render_atom_set(key, &texts_of_bytes(&m.icmp_types)))
}

fn texts_of_states(s: &Vec<FirewallConntrackState>) -> (r: Vec<String>)
    ensures
        views(r@) == state_texts(views(s@)),
{
    let mut r: Vec<String> = Vec::new();
    let mut i: usize = 0;
    while i < s.len()
        invariant
            i <= s@.len(),
            r@.len() == i,
            forall|j: int| 0 <= j < i ==> #[trigger] views(r@)[j] == state_texts(views(s@))[j],
        decreases s@.len() - i,
    {
        let t = match s[i] {
            FirewallConntrackState::New => "new",
            FirewallConntrackState::Established => "established",
            FirewallConntrackState::Related => "related",
            FirewallConntrackState::Invalid => "invalid",
        };
        r.push(t.to_owned());
        i = i + 1;
    }
    assert(views(r@) =~= state_texts(views(s@)));
    r
}

fn texts_of_protocols(s: &Vec<FirewallProtocol>) -> (r: Vec<String>)
    ensures
        views(r@) == protocol_texts(views(s@)),
{
    let mut r: Vec<String> = Vec::new();
    let mut i: usize = 0;
    while i < s.len()
        invariant
            i <= s@.len(),
            r@.len() == i,
            forall|j: int| 0 <= j < i ==> #[trigger] views(r@)[j] == protocol_texts(views(s@))[j],
        decreases s@.len() - i,
    {
        r.push(protocol(s[i]).to_owned());
        i = i + 1;
    }
    assert(views(r@) =~= protocol_texts(views(s@)));
    r
}

/// The parts behind a step that succeeded, or the error.
pub open spec fn parts_result(
    r: Result<(), NftablesRenderError>,
    parts: Seq<Seq<char>>,
) -> Result<Seq<Seq<char>>, NftablesRenderErrorView> {
    match r {
        Ok(()) => Ok(parts),
        Err(e) => Err(e@),
    }
}

/// The text behind a step that succeeded, or the error.
pub open spec fn text_result(
    r: Result<(), NftablesRenderError>,
    text: Seq<char>,
) -> Result<Seq<char>, NftablesRenderErrorView> {
    match r {
        Ok(()) => Ok(text),
        Err(e) => Err(e@),
    }
}

fn push_part(parts: &mut Vec<String>, part: Result<String, NftablesRenderError>) -> (r: Result<
    (),
    NftablesRenderError,
>)
    ensures
        parts_result(r, views(final(parts)@)) == then_part(
            Ok(views(old(parts)@)),
            true,
            vres(part),
        ),
{
    match part {
        Ok(t) => {
            parts.push(t);
            Ok(())
        },
        Err(e) => Err(e),
    }
}

fn place(
    m: &FirewallMatch,
    direction: FirewallDirection,
    sources: &Vec<String>,
    destinations: &Vec<String>,
) -> (r: Result<Vec<String>, NftablesRenderError>)
    ensures
        lvres(r) == placed_parts(m@, direction, views(sources@), views(destinations@)),
{
    let mut parts: Vec<String> = Vec::new();
    match m.family {
        FirewallFamily::Any => {},
        FirewallFamily::Ipv4 => parts.push("meta nfproto ipv4".to_owned()),
        FirewallFamily::Ipv6 => parts.push("meta nfproto ipv6".to_owned()),
    }
    assert(views(parts@) =~= family_parts(m@.family));
    if sources.len() > 0 {
        let key = if direction == FirewallDirection::Output {
            "oifname"
        } else {
            "iifname"
        };
        match push_part(&mut parts, render_string_set(key, sources)) {
            Ok(()) => {},
            Err(e) => {
                return Err(e);
            },
        }
    }
    if destinations.len() > 0 {
        if direction != FirewallDirection::Forward {
            return Err(
                NftablesRenderError::UnsupportedField(
                    "destination zone for non-forward filter direction",
                ),
            );
        }
        match push_part(&mut parts, render_string_set("oifname", destinations)) {
            Ok(()) => {},
            Err(e) => {
                return Err(e);
            },
        }
    }
    if m.input_interfaces.len() > 0 {
        match push_part(&mut parts, render_string_set("iifname", &m.input_interfaces)) {
            Ok(()) => {},
            Err(e) => {
                return Err(e);
            },
        }
    }
    if m.output_interfaces.len() > 0 {
        match push_part(&mut parts, render_string_set("oifname", &m.output_interfaces)) {
            Ok(()) => {},
            Err(e) => {
                return Err(e);
            },
        }
    }
    Ok(parts)
}

fn add_values(start: Vec<String>, m: &FirewallMatch) -> (r: Result<Vec<String>, NftablesRenderError>)
    ensures
        lvres(r) == valued_parts(Ok(views(start@)), m@),
{
    let mut parts = start;
    if m.source_networks.len() > 0 {
        match push_part(&mut parts, render_networks("saddr", &m.source_networks)) {
            Ok(()) => {},
            Err(e) => {
                return Err(e);
            },
        }
    }
    if m.destination_networks.len() > 0 {
        match push_part(&mut parts, render_networks("daddr", &m.destination_networks)) {
            Ok(()) => {},
            Err(e) => {
                return Err(e);
            },
        }
    }
    if m.source_macs.len() > 0 {
        parts.push(render_atom_set("ether saddr", &m.source_macs));
    }
    if m.protocols.len() > 0 {
        parts.push(render_atom_set("meta l4proto", &texts_of_protocols(&m.protocols)));
    }
    if m.source_ports.len() > 0 {
        parts.push(render_atom_set("th sport", &texts_of_ports(&m.source_ports)));
    }
    if m.destination_ports.len() > 0 {
        parts.push(render_atom_set("th dport", &texts_of_ports(&m.destination_ports)));
    }
    if m.icmp_types.len() > 0 {
        match push_part(&mut parts, render_icmp_types(m)) {
            Ok(()) => {},
            Err(e) => {
                return Err(e);
            },
        }
    }
    if m.conntrack_states.len() > 0 {
        parts.push(render_atom_set("ct state", &texts_of_states(&m.conntrack_states)));
    }
    Ok(parts)
}

fn render_nat_translation(verb: &str, address: IpAddr, p: &Option<PortRange>) -> (r: String)
    ensures
        r@ == translation(verb@, address, *p),
{
    let mut r = verb.to_owned();
    if address.is_ipv4() {
        r.append(" ip to ");
    } else {
        r.append(" ip6 to ");
    }
    let end = match p {
        None => address.text(),
        Some(p) => {
            if address.is_ipv4() {
                let mut t = address.text();
                t.append(":");
                t.append(port(*p).as_str());
                t
            } else {
                let mut t = "[".to_owned();
                t.append(address.text().as_str());
                t.append("]:");
                t.append(port(*p).as_str());
                t
            }
        },
    };
    r.append(end.as_str());
    r
}

fn render_action(rule: &FirewallNatRule) -> (r: Result<String, NftablesRenderError>)
    ensures
        vres(r) == action_part(rule@),
{
    match rule.kind {
        FirewallNatKind::Masquerade => Ok("masquerade".to_owned()),
        FirewallNatKind::Redirect => match rule.translation_port {
            None => Err(NftablesRenderError::InvalidObject),
            Some(p) => {
                let mut t = "redirect to :".to_owned();
                t.append(port(p).as_str());
                Ok(t)
            },
        },
        FirewallNatKind::DestinationNat => match rule.translation_address {
            None => Err(NftablesRenderError::InvalidObject),
            Some(a) => Ok(render_nat_translation("dnat", a, &rule.translation_port)),
        },
        FirewallNatKind::SourceNat => match rule.translation_address {
            None => Err(NftablesRenderError::InvalidObject),
            Some(a) => Ok(render_nat_translation("snat", a, &rule.translation_port)),
        },
    }
}

fn render_verdict(v: FirewallVerdict, r: Option<FirewallRejectKind>) -> (q: Result<
    String,
    NftablesRenderError,
>)
    ensures
        vres(q) == verdict_text(v, r),
{
    match (v, r) {
        (FirewallVerdict::Accept, None) => Ok("accept".to_owned()),
        (FirewallVerdict::Drop, None) => Ok("drop".to_owned()),
        (FirewallVerdict::Reject, Some(FirewallRejectKind::TcpReset)) => Ok(
            "reject with tcp reset".to_owned(),
        ),
        (FirewallVerdict::Reject, Some(FirewallRejectKind::IcmpPortUnreachable)) => Ok(
            "reject with icmp type port-unreachable".to_owned(),
        ),
        (FirewallVerdict::Reject, Some(FirewallRejectKind::IcmpHostUnreachable)) => Ok(
            "reject with icmp type host-unreachable".to_owned(),
        ),
        (FirewallVerdict::Reject, Some(FirewallRejectKind::Icmp6PortUnreachable)) => Ok(
            "reject with icmpv6 type port-unreachable".to_owned(),
        ),
        _ => Err(NftablesRenderError::InvalidObject),
    }
}

fn log_level(l: FirewallLogLevel) -> (r: &'static str)
    ensures
        r@ == level_name(l),
{
    match l {
        FirewallLogLevel::Emergency => "emerg",
        FirewallLogLevel::Alert => "alert",
        FirewallLogLevel::Critical => "crit",
        FirewallLogLevel::Error => "err",
        FirewallLogLevel::Warning => "warn",
        FirewallLogLevel::Notice => "notice",
        FirewallLogLevel::Info => "info",
        FirewallLogLevel::Debug => "debug",
    }
}

fn render_comment(id: &str) -> (r: Result<String, NftablesRenderError>)
    ensures
        vres(r) == comment_part(id@),
{
    match nft_string(id) {
        Some(q) => {
            let mut t = "comment ".to_owned();
            t.append(q.as_str());
            Ok(t)
        },
        None => Err(NftablesRenderError::UnsafeValue),
    }
}

fn append_zone_lines(
    out: &mut String,
    key: &str,
    interfaces: &Vec<String>,
    action: &str,
    label: &str,
) -> (r: bool)
    ensures
        r == zone_lines(old(out)@, key@, views(interfaces@), action@, label@, 0) is Some,
        r ==> zone_lines(old(out)@, key@, views(interfaces@), action@, label@, 0) == Some(
            final(out)@,
        ),
{
    let ghost start = out@;
    let ghost all = views(interfaces@);
    let mut i: usize = 0;
    while i < interfaces.len()
        invariant
            i <= interfaces@.len(),
            start == old(out)@,
            all == views(interfaces@),
            zone_lines(out@, key@, all, action@, label@, i as int) == zone_lines(
                start,
                key@,
                all,
                action@,
                label@,
                0,
            ),
        decreases interfaces@.len() - i,
    {
        assert(all[i as int] == interfaces@[i as int]@);
        match (nft_string(interfaces[i].as_str()), nft_string(label)) {
            (Some(a), Some(b)) => {
                let mut line = "        ".to_owned();
                line.append(key);
                line.append(" ");
                line.append(a.as_str());
                line.append(" ");
                line.append(action);
                line.append(" comment ");
                line.append(b.as_str());
                line.append("\n");
                out.append(line.as_str());
            },
            _ => {
                return false;
            },
        }
        i = i + 1;
    }
    true
}

fn render_zone_policies(
    out: &mut String,
    zones: &Vec<FirewallZone>,
    direction: FirewallDirection,
) -> (r: Result<(), NftablesRenderError>)
    ensures
        text_result(r, final(out)@) == policies_text(old(out)@, views(zones@), direction, 0),
{
    let ghost start = out@;
    let ghost all = views(zones@);
    let mut i: usize = 0;
    while i < zones.len()
        invariant
            i <= zones@.len(),
            start == old(out)@,
            all == views(zones@),
            policies_text(out@, all, direction, i as int) == policies_text(
                start,
                all,
                direction,
                0,
            ),
        decreases zones@.len() - i,
    {
        let zone = &zones[i];
        assert(all[i as int] == zone@);
        if zone.enabled {
            let (key, verdict) = match direction {
                FirewallDirection::Input => ("iifname", zone.input),
                FirewallDirection::Output => ("oifname", zone.output),
                FirewallDirection::Forward => ("iifname", zone.forward),
            };
            let action = match verdict {
                FirewallVerdict::Accept => "accept",
                FirewallVerdict::Drop => "drop",
                FirewallVerdict::Reject => "reject",
            };
            let mut label = "zone:".to_owned();
            label.append(zone.id.as_str());
            if !append_zone_lines(out, key, &zone.networks, action, label.as_str()) {
                return Err(NftablesRenderError::UnsafeValue);
            }
        }
        i = i + 1;
    }
    Ok(())
}

fn render_masquerades(out: &mut String, zones: &Vec<FirewallZone>) -> (r: Result<
    (),
    NftablesRenderError,
>)
    ensures
        text_result(r, final(out)@) == masquerades_text(old(out)@, views(zones@), 0),
{
    let ghost start = out@;
    let ghost all = views(zones@);
    let mut i: usize = 0;
    while i < zones.len()
        invariant
            i <= zones@.len(),
            start == old(out)@,
            all == views(zones@),
            masquerades_text(out@, all, i as int) == masquerades_text(start, all, 0),
        decreases zones@.len() - i,
    {
        let zone = &zones[i];
        assert(all[i as int] == zone@);
        if zone.enabled && zone.masquerade {
            let mut label = "zone-masq:".to_owned();
            label.append(zone.id.as_str());
            if !append_zone_lines(out, "oifname", &zone.networks, "masquerade", label.as_str()) {
                return Err(NftablesRenderError::UnsafeValue);
            }
        }
        i = i + 1;
    }
    Ok(())
}

fn append_forwarding(
    out: &mut String,
    inputs: &Vec<String>,
    outputs: &Vec<String>,
    id: &str,
) -> (r: bool)
    ensures
        r == forward_all(old(out)@, views(inputs@), views(outputs@), id@, 0) is Some,
        r ==> forward_all(old(out)@, views(inputs@), views(outputs@), id@, 0) == Some(final(out)@),
{
    let ghost start = out@;
    let ghost ins = views(inputs@);
    let ghost outs = views(outputs@);
    let mut i: usize = 0;
    while i < inputs.len()
        invariant
            i <= inputs@.len(),
            start == old(out)@,
            ins == views(inputs@),
            outs == views(outputs@),
            forward_all(out@, ins, outs, id@, i as int) == forward_all(start, ins, outs, id@, 0),
        decreases inputs@.len() - i,
    {
        assert(ins[i as int] == inputs@[i as int]@);
        let ghost before = out@;
        let mut j: usize = 0;
        while j < outputs.len()
            invariant
                j <= outputs@.len(),
                i < inputs@.len(),
                start == old(out)@,
                ins == views(inputs@),
                outs == views(outputs@),
                ins[i as int] == inputs@[i as int]@,
                forward_all(before, ins, outs, id@, i as int) == forward_all(
                    start,
                    ins,
                    outs,
                    id@,
                    0,
                ),
                forward_to(out@, ins[i as int], outs, id@, j as int) == forward_to(
                    before,
                    ins[i as int],
                    outs,
                    id@,
                    0,
                ),
            decreases outputs@.len() - j,
        {
            assert(outs[j as int] == outputs@[j as int]@);
            match (nft_string(inputs[i].as_str()), nft_string(outputs[j].as_str()), nft_string(id)) {
                (Some(a), Some(b), Some(c)) => {
                    let mut line = "        iifname ".to_owned();
                    line.append(a.as_str());
                    line.append(" oifname ");
                    line.append(b.as_str());
                    line.append(" accept comment ");
                    line.append(c.as_str());
                    line.append("\n");
                    out.append(line.as_str());
                },
                _ => {
                    return false;
                },
            }
            j = j + 1;
        }
        i = i + 1;
    }
    true
}

/// The sum of a count and a product, if it is not above the limit.
fn grow(count: usize, n: usize, m: usize) -> (r: Option<usize>)
    requires
        count <= MAX_EXPANDED_RULES,
    ensures
        match r {
            Some(t) => t == count + n * m && t <= MAX_EXPANDED_RULES,
            None => count + n * m > MAX_EXPANDED_RULES,
        },
{
    if n == 0 || m == 0 {
        assert(n * m == 0) by (nonlinear_arith)
            requires
                n == 0 || m == 0,
        ;
        return Some(count);
    }
    if n > MAX_EXPANDED_RULES || m > MAX_EXPANDED_RULES {
        assert(n * m > MAX_EXPANDED_RULES) by (nonlinear_arith)
            requires
                n >= 1,
                m >= 1,
                n > MAX_EXPANDED_RULES || m > MAX_EXPANDED_RULES,
        ;
        return None;
    }
    assert(n * m <= 1024 * 1024) by (nonlinear_arith)
        requires
            n <= 1024,
            m <= 1024,
    ;
    let p: usize = n * m;
    if count + p > MAX_EXPANDED_RULES {
        None
    } else {
        Some(count + p)
    }
}

impl RenderContext {
    /// Sorts the objects of a projection by what they are.
    fn new(objects: &Vec<FirewallObject>) -> (r: Result<RenderContext, NftablesRenderError>)
        ensures
            vres(r) == context_of(views(objects@)),
    {
        let mut c = RenderContext {
            zones: Vec::new(),
            forwardings: Vec::new(),
            filter_rules: Vec::new(),
            address_sets: Vec::new(),
            nat_rules: Vec::new(),
            sets: Vec::new(),
        };
        assert(c@ =~= empty_context());
        let mut i: usize = 0;
        while i < objects.len()
            invariant
                i <= objects@.len(),
                context_from(c@, views(objects@), i as int) == context_from(
                    empty_context(),
                    views(objects@),
                    0,
                ),
            decreases objects@.len() - i,
        {
            assert(views(objects@)[i as int] == objects@[i as int]@);
            match &objects[i] {
                FirewallObject::Zone(value) => {
                    if value.mtu_fix {
                        return Err(
                            NftablesRenderError::UnsupportedField(
                                "generic nftables zone MTU fixing",
                            ),
                        );
                    }
                    c.zones.push(value.twin());
                },
                FirewallObject::Forwarding(value) => c.forwardings.push(value.twin()),
                FirewallObject::FilterRule(value) => insert_filter_rule(
                    &mut c.filter_rules,
                    value,
                ),
                FirewallObject::NatRule(value) => insert_nat_rule(&mut c.nat_rules, value),
                FirewallObject::AddressSet(value) => {
                    let name = native_name(value.id.as_str());
                    if name_taken(&c.sets, name.as_str()) {
                        return Err(NftablesRenderError::NameCollision);
                    }
                    match set_type(value) {
                        None => {
                            return Err(NftablesRenderError::InvalidObject);
                        },
                        Some(value_type) => {
                            c.sets.push(
                                NftSet {
                                    id: value.id.clone(),
                                    name,
                                    value_type,
                                    enabled: value.enabled,
                                },
                            );
                            c.address_sets.push(value.twin());
                        },
                    }
                },
            }
            i = i + 1;
        }
        let ghost all = c@.forwardings;
        i = 0;
        while i < c.forwardings.len()
            invariant
                i <= c.forwardings@.len(),
                all == c@.forwardings,
                all == views(c.forwardings@),
                context_from(empty_context(), views(objects@), 0) == Ok::<
                    RenderContextView,
                    NftablesRenderErrorView,
                >(c@),
                forall|j: int|
                    0 <= j < i ==> has_zone(c@.zones, (#[trigger] all[j]).source_zone) && has_zone(
                        c@.zones,
                        all[j].destination_zone,
                    ),
            decreases c.forwardings@.len() - i,
        {
            assert(all[i as int] == c.forwardings@[i as int]@);
            if !zone_known(&c.zones, c.forwardings[i].source_zone.as_str()) || !zone_known(
                &c.zones,
                c.forwardings[i].destination_zone.as_str(),
            ) {
                assert(!is_linked(c@));
                return Err(NftablesRenderError::MissingReference);
            }
            i = i + 1;
        }
        Ok(c)
    }

    fn set(&self, id: &str) -> (r: Option<&NftSet>)
        ensures
            match r {
                Some(s) => set_from(self@.sets, id@, 0) == Some(s@),
                None => set_from(self@.sets, id@, 0) is None,
            },
    {
        let mut i: usize = 0;
        while i < self.sets.len()
            invariant
                i <= self.sets@.len(),
                set_from(self@.sets, id@, i as int) == set_from(self@.sets, id@, 0),
            decreases self.sets@.len() - i,
        {
            assert(self@.sets[i as int] == self.sets@[i as int]@);
            if same(self.sets[i].id.as_str(), id) {
                return Some(&self.sets[i]);
            }
            i = i + 1;
        }
        None
    }

    fn render_sets(&self, out: &mut String) -> (r: Result<(), NftablesRenderError>)
        ensures
            text_result(r, final(out)@) == sets_text(old(out)@, self@, 0),
    {
        let ghost start = out@;
        let mut i: usize = 0;
        while i < self.address_sets.len()
            invariant
                i <= self.address_sets@.len(),
                start == old(out)@,
                sets_text(out@, self@, i as int) == sets_text(start, self@, 0),
            decreases self.address_sets@.len() - i,
        {
            let set = &self.address_sets[i];
            assert(self@.address_sets[i as int] == set@);
            if set.enabled {
                match self.set(set.id.as_str()) {
                    None => {
                        return Err(NftablesRenderError::MissingReference);
                    },
                    Some(native) => {
                        let mut block = "    set ".to_owned();
                        block.append(native.name.as_str());
                        block.append(" {\n");
                        let kind = match native.value_type {
                            NftSetType::Ipv4Network =>
                                "        type ipv4_addr\n        flags interval\n",
                            NftSetType::Ipv6Network =>
                                "        type ipv6_addr\n        flags interval\n",
                            NftSetType::Mac => "        type ether_addr\n",
                            NftSetType::Port => "        type inet_service\n        flags interval\n",
                        };
                        block.append(kind);
                        block.append("        elements = { ");
                        block.append(join_texts(&set_entries(&set.entries), ", ").as_str());
                        block.append(" }\n    }\n");
                        out.append(block.as_str());
                    },
                }
            }
            i = i + 1;
        }
        Ok(())
    }

    fn dimension_taken(&self, ids: &Vec<String>, i: usize) -> (r: bool)
        requires
            i < ids@.len(),
        ensures
            r == dimension_used(self@.sets, views(ids@), i as int),
    {
        let ghost all = views(ids@);
        let mut j: usize = 0;
        while j < i
            invariant
                j <= i < ids@.len(),
                all == views(ids@),
                forall|k: int|
                    0 <= k < j ==> !(set_from(self@.sets, #[trigger] all[k], 0) matches Some(a)
                        && set_from(self@.sets, all[i as int], 0) matches Some(b) && dimension_of(
                        a.value_type,
                    ) == dimension_of(b.value_type)),
            decreases i - j,
        {
            assert(all[j as int] == ids@[j as int]@);
            assert(all[i as int] == ids@[i as int]@);
            match (self.set(ids[j].as_str()), self.set(ids[i].as_str())) {
                (Some(a), Some(b)) => {
                    if same_dimension(a.value_type, b.value_type) {
                        return true;
                    }
                },
                _ => {},
            }
            j = j + 1;
        }
        false
    }

    fn validate_set_composition(&self, ids: &Vec<String>, family: FirewallFamily) -> (r: Result<
        (),
        NftablesRenderError,
    >)
        ensures
            ures(r) == sets_compose(self@.sets, views(ids@), family, 0),
    {
        let mut i: usize = 0;
        while i < ids.len()
            invariant
                i <= ids@.len(),
                sets_compose(self@.sets, views(ids@), family, i as int) == sets_compose(
                    self@.sets,
                    views(ids@),
                    family,
                    0,
                ),
            decreases ids@.len() - i,
        {
            assert(views(ids@)[i as int] == ids@[i as int]@);
            match self.set(ids[i].as_str()) {
                None => {
                    return Err(NftablesRenderError::MissingReference);
                },
                Some(s) => {
                    let fits = match family {
                        FirewallFamily::Any => true,
                        FirewallFamily::Ipv4 => s.value_type != NftSetType::Ipv6Network,
                        FirewallFamily::Ipv6 => s.value_type != NftSetType::Ipv4Network,
                    };
                    if !fits {
                        return Err(
                            NftablesRenderError::UnsupportedField(
                                "address-set family does not match rule family",
                            ),
                        );
                    }
                    if self.dimension_taken(ids, i) {
                        return Err(
                            NftablesRenderError::UnsupportedField(
                                "multiple same-dimension sets require rule expansion",
                            ),
                        );
                    }
                },
            }
            i = i + 1;
        }
        Ok(())
    }

    fn render_set_matches(&self, start: Vec<String>, ids: &Vec<String>, source: bool) -> (r: Result<
        Vec<String>,
        NftablesRenderError,
    >)
        ensures
            lvres(r) == set_parts(views(start@), self@.sets, views(ids@), source, 0),
    {
        let ghost first = views(start@);
        let mut parts = start;
        let mut i: usize = 0;
        while i < ids.len()
            invariant
                i <= ids@.len(),
                first == views(start@),
                set_parts(views(parts@), self@.sets, views(ids@), source, i as int) == set_parts(
                    first,
                    self@.sets,
                    views(ids@),
                    source,
                    0,
                ),
            decreases ids@.len() - i,
        {
            assert(views(ids@)[i as int] == ids@[i as int]@);
            match self.set(ids[i].as_str()) {
                None => {
                    return Err(NftablesRenderError::MissingReference);
                },
                Some(s) => {
                    if !s.enabled {
                        return Err(NftablesRenderError::MissingReference);
                    }
                    let expression = match (s.value_type, source) {
                        (NftSetType::Ipv4Network, true) => "ip saddr",
                        (NftSetType::Ipv4Network, false) => "ip daddr",
                        (NftSetType::Ipv6Network, true) => "ip6 saddr",
                        (NftSetType::Ipv6Network, false) => "ip6 daddr",
                        (NftSetType::Mac, true) => "ether saddr",
                        (NftSetType::Mac, false) => "ether daddr",
                        (NftSetType::Port, true) => "th sport",
                        (NftSetType::Port, false) => "th dport",
                    };
                    let mut t = expression.to_owned();
                    t.append(" @");
                    t.append(s.name.as_str());
                    parts.push(t);
                },
            }
            i = i + 1;
        }
        Ok(parts)
    }

    fn render_match(&self, m: &FirewallMatch, direction: FirewallDirection) -> (r: Result<
        Vec<String>,
        NftablesRenderError,
    >)
        ensures
            lvres(r) == match_parts(self@, m@, direction),
    {
        match check_shape(m) {
            Some(field) => {
                return Err(NftablesRenderError::UnsupportedField(field));
            },
            None => {},
        }
        let (sources, destinations) = match (
            zone_interfaces(&self.zones, &m.source_zones),
            zone_interfaces(&self.zones, &m.destination_zones),
        ) {
            (Some(s), Some(d)) => (s, d),
            _ => {
                return Err(NftablesRenderError::MissingReference);
            },
        };
        let located = match place(m, direction, &sources, &destinations) {
            Ok(p) => p,
            Err(e) => {
                return Err(e);
            },
        };
        let valued = match add_values(located, m) {
            Ok(p) => p,
            Err(e) => {
                return Err(e);
            },
        };
        match self.validate_set_composition(&m.source_sets, m.family) {
            Ok(()) => {},
            Err(e) => {
                return Err(e);
            },
        }
        match self.validate_set_composition(&m.destination_sets, m.family) {
            Ok(()) => {},
            Err(e) => {
                return Err(e);
            },
        }
        let more = match self.render_set_matches(valued, &m.source_sets, true) {
            Ok(p) => p,
            Err(e) => {
                return Err(e);
            },
        };
        self.render_set_matches(more, &m.destination_sets, false)
    }

    fn render_filter_rule(&self, rule: &FirewallFilterRule) -> (r: Result<
        String,
        NftablesRenderError,
    >)
        ensures
            vres(r) == filter_rule_text(self@, rule@),
    {
        let mut parts = match self.render_match(&rule.matches, rule.direction) {
            Ok(p) => p,
            Err(e) => {
                return Err(e);
            },
        };
        match rule.rate_limit {
            Some(limit) => {
                let mut t = "limit rate ".to_owned();
                t.append(decimal_text(limit.packets_per_second as u64).as_str());
                t.append("/second burst ");
                t.append(decimal_text(limit.burst as u64).as_str());
                t.append(" packets");
                parts.push(t);
            },
            None => {},
        }
        match &rule.log {
            Some(log) => match nft_string(log.prefix.as_str()) {
                None => {
                    return Err(NftablesRenderError::UnsafeValue);
                },
                Some(q) => {
                    let mut t = "log prefix ".to_owned();
                    t.append(q.as_str());
                    t.append(" level ");
                    t.append(log_level(log.level));
                    parts.push(t);
                },
            },
            None => {},
        }
        match push_part(&mut parts, render_verdict(rule.verdict, rule.reject_with)) {
            Ok(()) => {},
            Err(e) => {
                return Err(e);
            },
        }
        match push_part(&mut parts, render_comment(rule.id.as_str())) {
            Ok(()) => {},
            Err(e) => {
                return Err(e);
            },
        }
        Ok(join_texts(&parts, " "))
    }

    fn render_nat_rule(&self, rule: &FirewallNatRule) -> (r: Result<String, NftablesRenderError>)
        ensures
            vres(r) == nat_rule_text(self@, rule@),
    {
        let prerouting = rule.kind == FirewallNatKind::DestinationNat || rule.kind
            == FirewallNatKind::Redirect;
        if prerouting && rule.matches.destination_zones.len() > 0 {
            return Err(
                NftablesRenderError::UnsupportedField(
                    "DNAT destination-zone matching is not stable in prerouting",
                ),
            );
        }
        let direction = if prerouting {
            FirewallDirection::Input
        } else {
            FirewallDirection::Forward
        };
        let mut parts = match self.render_match(&rule.matches, direction) {
            Ok(p) => p,
            Err(e) => {
                return Err(e);
            },
        };
        match push_part(&mut parts, render_action(rule)) {
            Ok(()) => {},
            Err(e) => {
                return Err(e);
            },
        }
        match push_part(&mut parts, render_comment(rule.id.as_str())) {
            Ok(()) => {},
            Err(e) => {
                return Err(e);
            },
        }
        Ok(join_texts(&parts, " "))
    }

    fn render_filter_rules(&self, out: &mut String, direction: FirewallDirection) -> (r: Result<
        (),
        NftablesRenderError,
    >)
        ensures
            text_result(r, final(out)@) == filter_rules_text(old(out)@, self@, direction, 0),
    {
        let ghost start = out@;
        let mut i: usize = 0;
        while i < self.filter_rules.len()
            invariant
                i <= self.filter_rules@.len(),
                start == old(out)@,
                filter_rules_text(out@, self@, direction, i as int) == filter_rules_text(
                    start,
                    self@,
                    direction,
                    0,
                ),
            decreases self.filter_rules@.len() - i,
        {
            let rule = &self.filter_rules[i];
            assert(self@.filter_rules[i as int] == rule@);
            if rule.enabled && rule.direction == direction {
                match self.render_filter_rule(rule) {
                    Ok(t) => append_indented(out, t.as_str()),
                    Err(e) => {
                        return Err(e);
                    },
                }
            }
            i = i + 1;
        }
        Ok(())
    }

    fn render_nat_rules(&self, out: &mut String, prerouting: bool) -> (r: Result<
        (),
        NftablesRenderError,
    >)
        ensures
            text_result(r, final(out)@) == nat_rules_text(old(out)@, self@, prerouting, 0),
    {
        let ghost start = out@;
        let mut i: usize = 0;
        while i < self.nat_rules.len()
            invariant
                i <= self.nat_rules@.len(),
                start == old(out)@,
                nat_rules_text(out@, self@, prerouting, i as int) == nat_rules_text(
                    start,
                    self@,
                    prerouting,
                    0,
                ),
            decreases self.nat_rules@.len() - i,
        {
            let rule = &self.nat_rules[i];
            assert(self@.nat_rules[i as int] == rule@);
            let early = rule.kind == FirewallNatKind::DestinationNat || rule.kind
                == FirewallNatKind::Redirect;
            if rule.enabled && early == prerouting {
                match self.render_nat_rule(rule) {
                    Ok(t) => append_indented(out, t.as_str()),
                    Err(e) => {
                        return Err(e);
                    },
                }
            }
            i = i + 1;
        }
        Ok(())
    }

    fn render_forwardings(&self, out: &mut String) -> (r: Result<(), NftablesRenderError>)
        ensures
            text_result(r, final(out)@) == forwardings_text(old(out)@, self@, 0, 0),
    {
        let ghost start = out@;
        let mut count: usize = 0;
        let mut i: usize = 0;
        while i < self.forwardings.len()
            invariant
                i <= self.forwardings@.len(),
                start == old(out)@,
                count <= MAX_EXPANDED_RULES,
                forwardings_text(out@, self@, count as int, i as int) == forwardings_text(
                    start,
                    self@,
                    0,
                    0,
                ),
            decreases self.forwardings@.len() - i,
        {
            let f = &self.forwardings[i];
            assert(self@.forwardings[i as int] == f@);
            if f.enabled {
                match (
                    find_zone(&self.zones, f.source_zone.as_str()),
                    find_zone(&self.zones, f.destination_zone.as_str()),
                ) {
                    (Some(s), Some(t)) => {
                        match grow(count, s.networks.len(), t.networks.len()) {
                            None => {
                                return Err(NftablesRenderError::Capacity);
                            },
                            Some(n) => {
                                count = n;
                            },
                        }
                        if !append_forwarding(out, &s.networks, &t.networks, f.id.as_str()) {
                            return Err(NftablesRenderError::UnsafeValue);
                        }
                    },
                    _ => {
                        return Err(NftablesRenderError::MissingReference);
                    },
                }
            }
            i = i + 1;
        }
        Ok(())
    }

    fn render_filter_chain(&self, out: &mut String, direction: FirewallDirection) -> (r: Result<
        (),
        NftablesRenderError,
    >)
        ensures
            text_result(r, final(out)@) == filter_chain_text(old(out)@, self@, direction),
    {
        let name = match direction {
            FirewallDirection::Input => "input",
            FirewallDirection::Output => "output",
            FirewallDirection::Forward => "forward",
        };
        let mut head = "    chain ".to_owned();
        head.append(name);
        head.append(" {\n        type filter hook ");
        head.append(name);
        head.append(" priority -5; policy accept;\n");
        out.append(head.as_str());
        match self.render_filter_rules(out, direction) {
            Ok(()) => {},
            Err(e) => {
                return Err(e);
            },
        }
        if direction == FirewallDirection::Forward {
            match self.render_forwardings(out) {
                Ok(()) => {},
                Err(e) => {
                    return Err(e);
                },
            }
        }
        match render_zone_policies(out, &self.zones, direction) {
            Ok(()) => {},
            Err(e) => {
                return Err(e);
            },
        }
        out.append("    }\n");
        Ok(())
    }

    fn render_nat_chains(&self, out: &mut String) -> (r: Result<(), NftablesRenderError>)
        ensures
            text_result(r, final(out)@) == nat_chains_text(old(out)@, self@),
    {
        out.append(
            "    chain prerouting {\n        type nat hook prerouting priority -90; policy accept;\n",
        );
        match self.render_nat_rules(out, true) {
            Ok(()) => {},
            Err(e) => {
                return Err(e);
            },
        }
        match render_masquerades(out, &self.zones) {
            Ok(()) => {},
            Err(e) => {
                return Err(e);
            },
        }
        out.append("    }\n");
        out.append(
            "    chain postrouting {\n        type nat hook postrouting priority 110; policy accept;\n",
        );
        match self.render_nat_rules(out, false) {
            Ok(()) => {},
            Err(e) => {
                return Err(e);
            },
        }
        out.append("    }\n");
        Ok(())
    }

    fn render_ruleset(&self, state: NftablesTableState) -> (r: Result<String, NftablesRenderError>)
        ensures
            vres(r) == ruleset_text(self@, state),
    {
        reveal(ruleset_text);
        let mut out = if state == NftablesTableState::AgentOwned {
            "delete table inet mbed_agent\n".to_owned()
        } else {
            String::new()
        };
        out.append("table inet mbed_agent {\n    comment \"mbed-agent-owned:v1\"\n");
        match self.render_sets(&mut out) {
            Ok(()) => {},
            Err(e) => {
                return Err(e);
            },
        }
        match self.render_filter_chain(&mut out, FirewallDirection::Input) {
            Ok(()) => {},
            Err(e) => {
                return Err(e);
            },
        }
        match self.render_filter_chain(&mut out, FirewallDirection::Output) {
            Ok(()) => {},
            Err(e) => {
                return Err(e);
            },
        }
        match self.render_filter_chain(&mut out, FirewallDirection::Forward) {
            Ok(()) => {},
            Err(e) => {
                return Err(e);
            },
        }
        match self.render_nat_chains(&mut out) {
            Ok(()) => {},
            Err(e) => {
                return Err(e);
            },
        }
        out.append("}\n");
        if byte_length(out.as_str()) > MAX_RULESET_BYTES {
            return Err(NftablesRenderError::Capacity);
        }
        Ok(out)
    }
}

fn append_indented(out: &mut String, text: &str)
    ensures
        final(out)@ == old(out)@ + indented(text@),
{
    let mut line = "        ".to_owned();
    line.append(text);
    line.append("\n");
    out.append(line.as_str());
}

fn same_dimension(a: NftSetType, b: NftSetType) -> (r: bool)
    ensures
        r == (dimension_of(a) == dimension_of(b)),
{
    match (a, b) {
        (NftSetType::Mac, NftSetType::Mac) => true,
        (NftSetType::Port, NftSetType::Port) => true,
        (NftSetType::Mac, _) => false,
        (NftSetType::Port, _) => false,
        (_, NftSetType::Mac) => false,
        (_, NftSetType::Port) => false,
        _ => true,
    }
}

/// A result without a value, its error by its view.
pub open spec fn ures(r: Result<(), NftablesRenderError>) -> Result<(), NftablesRenderErrorView> {
    match r {
        Ok(()) => Ok(()),
        Err(e) => Err(e@),
    }
}

/// Renders the projected state into one atomic ruleset.
///
/// Only objects that the agent owns take part. Loading the ruleset replaces the one table that the
/// agent owns, in the same transaction.
pub fn render_nftables_firewall_stage(
    inventory: &FirewallInventory,
    valid: &[bool],
    plan: &FirewallMutationPlan,
    table_state: NftablesTableState,
) -> (r: Result<NftablesFirewallStage, NftablesRenderError>)
    ensures
        vres(r) == nftables_stage(inventory@.objects, valid@, plan@.changes, table_state),
{
    let owned = match project_agent_objects(inventory, valid, plan) {
        Ok(o) => o,
        Err(FirewallProjectionError::InvalidObject) => {
            return Err(NftablesRenderError::InvalidObject);
        },
        Err(FirewallProjectionError::Ownership) => {
            return Err(NftablesRenderError::Ownership);
        },
        Err(FirewallProjectionError::PlanMismatch) => {
            return Err(NftablesRenderError::PlanMismatch);
        },
    };
    let context = match RenderContext::new(&owned) {
        Ok(c) => c,
        Err(e) => {
            return Err(e);
        },
    };
    match context.render_ruleset(table_state) {
        Err(e) => Err(e),
        Ok(ruleset) => Ok(
            NftablesFirewallStage {
                ruleset,
                validation: NftablesOperation::Check,
                activation: NftablesOperation::Load,
                coexistence: NftablesCoexistence::IsolatedAdditive,
            },
        ),
    }
}

} // verus!
