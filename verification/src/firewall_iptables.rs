//! Isolated iptables and ip6tables staging for generic Linux.

use vstd::prelude::*;

use vstd::string::*;

use crate::firewall_model::{
    FirewallAddressSet, FirewallAddressSetView, FirewallConntrackState, FirewallDirection, FirewallFamily,
    FirewallFilterRule, FirewallFilterRuleView, FirewallForwarding, FirewallForwardingView, FirewallInventory,
    FirewallLogLevel, FirewallMatch, FirewallMatchView, FirewallMutationPlan, FirewallNatKind, FirewallNatRule,
    FirewallNatRuleView, FirewallObject, FirewallObjectView, FirewallPlannedChangeView, FirewallProtocol,
    FirewallRateLimit, FirewallRejectKind, FirewallSetEntry, FirewallSetEntryView, FirewallVerdict, FirewallZone,
    FirewallZoneView, PortRange,
};
use crate::firewall_project::{project_agent_objects, projected, FirewallProjectionError};
use crate::firewall_uci::text_view;
use crate::firewall_zones::{
    filter_slot, find_zone, insert_filter_rule, insert_nat_rule, interfaces_of, nat_slot, zone_from, zone_interfaces,
};
use crate::items::{copy_list, same_list, Item};
use crate::net::{address_format, network_format, IpAddr, IpNetwork};
use crate::parse::map_all;
use crate::text::{
    ascii_control, begins, byte_len, byte_length, chars_are, chars_of, decimal, decimal_text, is_ascii_control,
    lines, piece, same, split_lines, split_tokens, starts, string_of, tokens, trim_char, trimmed_of,
};
use crate::views::{group_views, lvres, opt, views, vres};

verus! {

broadcast use group_views;

/// Why an iptables inspection or stage was refused.
#[derive(Debug, Clone, PartialEq, Eq)]
pub enum IptablesRenderError {
    MalformedInspection,
    ForeignChains,
    Capacity,
    Ownership,
    PlanMismatch,
    InvalidObject,
    MissingReference,
    UnsupportedField(&'static str),
    UnsafeValue,
    Output,
}

#[verifier::ext_equal]
pub enum IptablesRenderErrorView {
    MalformedInspection,
    ForeignChains,
    Capacity,
    Ownership,
    PlanMismatch,
    InvalidObject,
    MissingReference,
    UnsupportedField(Seq<char>),
    UnsafeValue,
    Output,
}

impl View for IptablesRenderError {
    type V = IptablesRenderErrorView;

    open spec fn view(&self) -> IptablesRenderErrorView {
        match self {
            IptablesRenderError::MalformedInspection => IptablesRenderErrorView::MalformedInspection,
            IptablesRenderError::ForeignChains => IptablesRenderErrorView::ForeignChains,
            IptablesRenderError::Capacity => IptablesRenderErrorView::Capacity,
            IptablesRenderError::Ownership => IptablesRenderErrorView::Ownership,
            IptablesRenderError::PlanMismatch => IptablesRenderErrorView::PlanMismatch,
            IptablesRenderError::InvalidObject => IptablesRenderErrorView::InvalidObject,
            IptablesRenderError::MissingReference => IptablesRenderErrorView::MissingReference,
            IptablesRenderError::UnsupportedField(x) => IptablesRenderErrorView::UnsupportedField(x@),
            IptablesRenderError::UnsafeValue => IptablesRenderErrorView::UnsafeValue,
            IptablesRenderError::Output => IptablesRenderErrorView::Output,
        }
    }
}

impl IptablesRenderErrorView {
    /// The text of the error.
    pub open spec fn message_text(self) -> Seq<char> {
        match self {
            IptablesRenderErrorView::MalformedInspection =>
                "iptables-save inspection is malformed or oversized"@,
            IptablesRenderErrorView::ForeignChains =>
                "fixed MBED chains are partial, duplicated, or foreign"@,
            IptablesRenderErrorView::Capacity => "iptables staging exceeds its capacity"@,
            IptablesRenderErrorView::Ownership =>
                "iptables staging accepts only Agent-owned mutations"@,
            IptablesRenderErrorView::PlanMismatch => "iptables mutation plan does not match fresh inventory"@,
            IptablesRenderErrorView::InvalidObject =>
                "iptables mutation contains an invalid typed object"@,
            IptablesRenderErrorView::MissingReference =>
                "iptables object references a missing or disabled Agent-owned zone/set"@,
            IptablesRenderErrorView::UnsupportedField(x) => "iptables cannot safely represent: "@ + x,
            IptablesRenderErrorView::UnsafeValue =>
                "unsafe value cannot be represented in iptables-restore"@,
            IptablesRenderErrorView::Output => "failed to render iptables staging artifact"@,
        }
    }
}

impl IptablesRenderError {
    /// The text of the error.
    pub fn message(&self) -> (r: String)
        ensures
            r@ == self@.message_text(),
    {
        match self {
            IptablesRenderError::MalformedInspection =>
                "iptables-save inspection is malformed or oversized".to_owned(),
            IptablesRenderError::ForeignChains =>
                "fixed MBED chains are partial, duplicated, or foreign".to_owned(),
            IptablesRenderError::Capacity => "iptables staging exceeds its capacity".to_owned(),
            IptablesRenderError::Ownership =>
                "iptables staging accepts only Agent-owned mutations".to_owned(),
            IptablesRenderError::PlanMismatch => "iptables mutation plan does not match fresh inventory".to_owned(),
            IptablesRenderError::InvalidObject =>
                "iptables mutation contains an invalid typed object".to_owned(),
            IptablesRenderError::MissingReference =>
                "iptables object references a missing or disabled Agent-owned zone/set".to_owned(),
            IptablesRenderError::UnsupportedField(x) => {
                let mut r = "iptables cannot safely represent: ".to_owned();
                r.append(x);
                r
            },
            IptablesRenderError::UnsafeValue =>
                "unsafe value cannot be represented in iptables-restore".to_owned(),
            IptablesRenderError::Output => "failed to render iptables staging artifact".to_owned(),
        }
    }
}

/// Who owns the fixed chains of one address family.
#[derive(Debug, Clone, Copy, PartialEq, Eq, Structural)]
pub enum IptablesFamilyState {
    Absent,
    AgentOwned,
}

impl View for IptablesFamilyState {
    type V = IptablesFamilyState;

    open spec fn view(&self) -> IptablesFamilyState {
        *self
    }
}

impl Item for IptablesFamilyState {
    fn alike(&self, other: &Self) -> (r: bool) {
        *self == *other
    }

    fn twin(&self) -> (r: Self) {
        *self
    }
}

/// A fixed validation or activation of a restore artifact.
#[derive(Debug, Clone, Copy, PartialEq, Eq, Structural)]
pub enum IptablesOperation {
    ValidateIpv4,
    ValidateIpv6,
    LoadIpv4,
    LoadIpv6,
}

impl View for IptablesOperation {
    type V = IptablesOperation;

    open spec fn view(&self) -> IptablesOperation {
        *self
    }
}

impl Item for IptablesOperation {
    fn alike(&self, other: &Self) -> (r: bool) {
        *self == *other
    }

    fn twin(&self) -> (r: Self) {
        *self
    }
}

/// How the appended jumps live with other rules: those run first, and a verdict of the agent is final
/// where they let a packet through to it.
#[derive(Debug, Clone, Copy, PartialEq, Eq, Structural)]
pub enum IptablesCoexistence {
    AppendedTerminal,
}

impl View for IptablesCoexistence {
    type V = IptablesCoexistence;

    open spec fn view(&self) -> IptablesCoexistence {
        *self
    }
}

impl Item for IptablesCoexistence {
    fn alike(&self, other: &Self) -> (r: bool) {
        *self == *other
    }

    fn twin(&self) -> (r: Self) {
        *self
    }
}

/// An address family.
#[derive(Debug, Clone, Copy, PartialEq, Eq, Structural)]
pub enum IpFamily {
    Ipv4,
    Ipv6,
}

impl View for IpFamily {
    type V = IpFamily;

    open spec fn view(&self) -> IpFamily {
        *self
    }
}

impl Item for IpFamily {
    fn alike(&self, other: &Self) -> (r: bool) {
        *self == *other
    }

    fn twin(&self) -> (r: Self) {
        *self
    }
}

/// What the entries of a set are.
#[derive(Debug, Clone, Copy, PartialEq, Eq, Structural)]
pub enum SetKind {
    Ipv4Network,
    Ipv6Network,
    Mac,
    Port,
}

impl View for SetKind {
    type V = SetKind;

    open spec fn view(&self) -> SetKind {
        *self
    }
}

impl Item for SetKind {
    fn alike(&self, other: &Self) -> (r: bool) {
        *self == *other
    }

    fn twin(&self) -> (r: Self) {
        *self
    }
}

/// A set as the options that its entries become.
#[derive(Debug, Clone, PartialEq, Eq)]
pub struct ExpandedSet {
    pub id: String,
    pub enabled: bool,
    pub kind: SetKind,
    pub entries: Vec<String>,
}

#[verifier::ext_equal]
pub struct ExpandedSetView {
    pub id: Seq<char>,
    pub enabled: bool,
    pub kind: SetKind,
    pub entries: Seq<Seq<char>>,
}

impl View for ExpandedSet {
    type V = ExpandedSetView;

    open spec fn view(&self) -> ExpandedSetView {
        ExpandedSetView {
            id: self.id@,
            enabled: self.enabled,
            kind: self.kind,
            entries: views(self.entries@),
        }
    }
}

impl Item for ExpandedSet {
    fn alike(&self, other: &Self) -> (r: bool) {
        same(self.id.as_str(), other.id.as_str())
            && self.enabled == other.enabled
            && self.kind == other.kind
            && same_list(&self.entries, &other.entries)
    }

    fn twin(&self) -> (r: Self) {
        ExpandedSet {
            id: self.id.clone(),
            enabled: self.enabled,
            kind: self.kind,
            entries: copy_list(&self.entries),
        }
    }
}

/// The objects of a projection, sorted by what they are.
#[derive(Debug, Clone, PartialEq, Eq)]
pub struct RenderContext {
    pub zones: Vec<FirewallZone>,
    pub forwardings: Vec<FirewallForwarding>,
    pub filter_rules: Vec<FirewallFilterRule>,
    pub nat_rules: Vec<FirewallNatRule>,
    pub sets: Vec<ExpandedSet>,
}

#[verifier::ext_equal]
pub struct RenderContextView {
    pub zones: Seq<FirewallZoneView>,
    pub forwardings: Seq<FirewallForwardingView>,
    pub filter_rules: Seq<FirewallFilterRuleView>,
    pub nat_rules: Seq<FirewallNatRuleView>,
    pub sets: Seq<ExpandedSetView>,
}

impl View for RenderContext {
    type V = RenderContextView;

    open spec fn view(&self) -> RenderContextView {
        RenderContextView {
            zones: views(self.zones@),
            forwardings: views(self.forwardings@),
            filter_rules: views(self.filter_rules@),
            nat_rules: views(self.nat_rules@),
            sets: views(self.sets@),
        }
    }
}

impl Item for RenderContext {
    fn alike(&self, other: &Self) -> (r: bool) {
        same_list(&self.zones, &other.zones)
            && same_list(&self.forwardings, &other.forwardings)
            && same_list(&self.filter_rules, &other.filter_rules)
            && same_list(&self.nat_rules, &other.nat_rules)
            && same_list(&self.sets, &other.sets)
    }

    fn twin(&self) -> (r: Self) {
        RenderContext {
            zones: copy_list(&self.zones),
            forwardings: copy_list(&self.forwardings),
            filter_rules: copy_list(&self.filter_rules),
            nat_rules: copy_list(&self.nat_rules),
            sets: copy_list(&self.sets),
        }
    }
}

pub const MAX_SAVE_BYTES: usize = 262144;

pub const MAX_RESTORE_BYTES: usize = 262144;

pub const MAX_EXPANDED_RULES: usize = 1024;

/// One chain that the agent owns, and the jump that leads to it.
pub struct ChainBinding {
    pub table: &'static str,
    pub builtin: &'static str,
    pub managed: &'static str,
    pub marker: &'static str,
}

#[verifier::ext_equal]
pub struct ChainBindingView {
    pub table: Seq<char>,
    pub builtin: Seq<char>,
    pub managed: Seq<char>,
    pub marker: Seq<char>,
}

impl View for ChainBinding {
    type V = ChainBindingView;

    open spec fn view(&self) -> ChainBindingView {
        ChainBindingView {
            table: self.table@,
            builtin: self.builtin@,
            managed: self.managed@,
            marker: self.marker@,
        }
    }
}

/// The six chains of one address family.
pub open spec fn owned_chains() -> Seq<ChainBindingView> {
    seq![
        ChainBindingView {
            table: "filter"@,
            builtin: "INPUT"@,
            managed: "MBED_INPUT"@,
            marker: "mbed-agent-owned:v1:input"@,
        },
        ChainBindingView {
            table: "filter"@,
            builtin: "OUTPUT"@,
            managed: "MBED_OUTPUT"@,
            marker: "mbed-agent-owned:v1:output"@,
        },
        ChainBindingView {
            table: "filter"@,
            builtin: "FORWARD"@,
            managed: "MBED_FORWARD"@,
            marker: "mbed-agent-owned:v1:forward"@,
        },
        ChainBindingView {
            table: "nat"@,
            builtin: "PREROUTING"@,
            managed: "MBED_PREROUTING"@,
            marker: "mbed-agent-owned:v1:prerouting"@,
        },
        ChainBindingView {
            table: "nat"@,
            builtin: "POSTROUTING"@,
            managed: "MBED_POSTROUTING"@,
            marker: "mbed-agent-owned:v1:postrouting"@,
        },
        ChainBindingView {
            table: "mangle"@,
            builtin: "FORWARD"@,
            managed: "MBED_MANGLE_FORWARD"@,
            marker: "mbed-agent-owned:v1:mangle-forward"@,
        },
    ]
}

/// The six chains of one address family.
pub fn chains() -> (r: Vec<ChainBinding>)
    ensures
        views(r@) == owned_chains(),
{
    let mut r: Vec<ChainBinding> = Vec::new();
    r.push(
        ChainBinding {
            table: "filter",
            builtin: "INPUT",
            managed: "MBED_INPUT",
            marker: "mbed-agent-owned:v1:input",
        },
    );
    r.push(
        ChainBinding {
            table: "filter",
            builtin: "OUTPUT",
            managed: "MBED_OUTPUT",
            marker: "mbed-agent-owned:v1:output",
        },
    );
    r.push(
        ChainBinding {
            table: "filter",
            builtin: "FORWARD",
            managed: "MBED_FORWARD",
            marker: "mbed-agent-owned:v1:forward",
        },
    );
    r.push(
        ChainBinding {
            table: "nat",
            builtin: "PREROUTING",
            managed: "MBED_PREROUTING",
            marker: "mbed-agent-owned:v1:prerouting",
        },
    );
    r.push(
        ChainBinding {
            table: "nat",
            builtin: "POSTROUTING",
            managed: "MBED_POSTROUTING",
            marker: "mbed-agent-owned:v1:postrouting",
        },
    );
    r.push(
        ChainBinding {
            table: "mangle",
            builtin: "FORWARD",
            managed: "MBED_MANGLE_FORWARD",
            marker: "mbed-agent-owned:v1:mangle-forward",
        },
    );
    assert(views(r@) =~= owned_chains());
    r
}

/// Complete no-flush restore artifacts for both families.
#[derive(Debug, Clone, PartialEq, Eq)]
pub struct IptablesFirewallStage {
    pub ipv4_restore: String,
    pub ipv6_restore: String,
    pub validations: Vec<IptablesOperation>,
    pub activations: Vec<IptablesOperation>,
    pub coexistence: IptablesCoexistence,
    /// Loads of several tables and families can succeed in part despite prior validation.
    pub rollback_required: bool,
}

#[verifier::ext_equal]
pub struct IptablesFirewallStageView {
    pub ipv4_restore: Seq<char>,
    pub ipv6_restore: Seq<char>,
    pub validations: Seq<IptablesOperation>,
    pub activations: Seq<IptablesOperation>,
    pub coexistence: IptablesCoexistence,
    pub rollback_required: bool,
}

impl View for IptablesFirewallStage {
    type V = IptablesFirewallStageView;

    open spec fn view(&self) -> IptablesFirewallStageView {
        IptablesFirewallStageView {
            ipv4_restore: self.ipv4_restore@,
            ipv6_restore: self.ipv6_restore@,
            validations: self.validations@,
            activations: self.activations@,
            coexistence: self.coexistence,
            rollback_required: self.rollback_required,
        }
    }
}

/// Whether a snapshot is too long or holds a control character other than line feeds and tabs.
pub open spec fn is_malformed(save: Seq<char>) -> bool {
    byte_len(save) > MAX_SAVE_BYTES || exists|i: int|
        0 <= i < save.len() && is_ascii_control(#[trigger] save[i]) && save[i] != '\n' && save[i]
            != '\t'
}

/// The table that a line belongs to.
pub open spec fn table_at(all: Seq<Seq<char>>, i: int) -> Seq<char>
    decreases i,
{
    if i <= 0 || i > all.len() {
        Seq::empty()
    } else if starts(all[i - 1], "*"@) {
        all[i - 1].skip(1)
    } else if all[i - 1] == "COMMIT"@ {
        Seq::empty()
    } else {
        table_at(all, i - 1)
    }
}

/// Whether a line can hold a chain or a rule of a table.
pub open spec fn is_entry(all: Seq<Seq<char>>, c: ChainBindingView, i: int) -> bool {
    !starts(all[i], "*"@) && all[i] != "COMMIT"@ && table_at(all, i) == c.table
}

pub open spec fn declares(line: Seq<char>, c: ChainBindingView) -> bool {
    starts(line, ":"@ + c.managed + " "@)
}

/// The token behind the first occurrence of an option from `i` on.
pub open spec fn value_after(t: Seq<Seq<char>>, option: Seq<char>, i: int) -> Option<Seq<char>>
    decreases t.len() - i,
{
    if i < 0 || i >= t.len() {
        None
    } else if t[i] == option {
        if i + 1 < t.len() {
            Some(t[i + 1])
        } else {
            None
        }
    } else {
        value_after(t, option, i + 1)
    }
}

pub open spec fn jumps_to(line: Seq<char>, c: ChainBindingView) -> bool {
    value_after(tokens(line), "-j"@, 0) == Some(c.managed)
}

/// Whether a jump carries the marker of its chain and stands in the chain's built-in one.
pub open spec fn is_marked(line: Seq<char>, c: ChainBindingView) -> bool {
    let t = tokens(line);
    t.len() >= 2 && t[0] == "-A"@ && t[1] == c.builtin && (match value_after(t, "--comment"@, 0) {
        Some(v) => trim_char(v, '"') == c.marker,
        None => false,
    }) && value_after(t, "-j"@, 0) == Some(c.managed)
}

/// How many lines from `i` on declare a chain, jump to it, and jump to it with its marker.
pub open spec fn tally(
    all: Seq<Seq<char>>,
    c: ChainBindingView,
    acc: (nat, nat, nat),
    i: int,
) -> (nat, nat, nat)
    decreases all.len() - i,
{
    if i < 0 || i >= all.len() {
        acc
    } else if !is_entry(all, c, i) {
        tally(all, c, acc, i + 1)
    } else {
        let declared = if declares(all[i], c) {
            acc.0 + 1
        } else {
            acc.0
        };
        let jumping = if jumps_to(all[i], c) {
            acc.1 + 1
        } else {
            acc.1
        };
        let marked = if jumps_to(all[i], c) && is_marked(all[i], c) {
            acc.2 + 1
        } else {
            acc.2
        };
        tally(all, c, (declared, jumping, marked), i + 1)
    }
}

pub open spec fn tally_of(save: Seq<char>, c: ChainBindingView) -> (nat, nat, nat) {
    tally(lines(save), c, (0, 0, 0), 0)
}

/// Whether no chain is declared and no rule jumps to one.
pub open spec fn is_absent(save: Seq<char>) -> bool {
    forall|k: int|
        0 <= k < 6 ==> tally_of(save, #[trigger] owned_chains()[k]).0 == 0 && tally_of(
            save,
            owned_chains()[k],
        ).1 == 0
}

/// Whether each chain is declared once and has one jump, which carries its marker.
pub open spec fn is_complete(save: Seq<char>) -> bool {
    forall|k: int| 0 <= k < 6 ==> tally_of(save, #[trigger] owned_chains()[k]) == (1nat, 1nat, 1nat)
}

/// Who owns the chains of a family: nobody, the agent, or an unknown party.
pub open spec fn family_state(save: Seq<char>) -> Result<
    IptablesFamilyState,
    IptablesRenderErrorView,
> {
    if is_malformed(save) {
        Err(IptablesRenderErrorView::MalformedInspection)
    } else if is_absent(save) {
        Ok(IptablesFamilyState::Absent)
    } else if is_complete(save) {
        Ok(IptablesFamilyState::AgentOwned)
    } else {
        Err(IptablesRenderErrorView::ForeignChains)
    }
}

fn malformed(save: &str, cs: &Vec<char>) -> (r: bool)
    requires
        cs@ == save@,
    ensures
        r == is_malformed(save@),
{
    if byte_length(save) > MAX_SAVE_BYTES {
        return true;
    }
    let mut i: usize = 0;
    while i < cs.len()
        invariant
            i <= cs@.len(),
            cs@ == save@,
            byte_len(save@) <= MAX_SAVE_BYTES,
            forall|j: int|
                0 <= j < i ==> !(is_ascii_control(#[trigger] cs@[j]) && cs@[j] != '\n' && cs@[j]
                    != '\t'),
        decreases cs@.len() - i,
    {
        if ascii_control(cs[i]) && cs[i] != '\n' && cs[i] != '\t' {
            assert(is_ascii_control(save@[i as int]));
            return true;
        }
        i = i + 1;
    }
    false
}

fn option_value(t: &Vec<String>, option: &str) -> (r: Option<String>)
    ensures
        opt(r) == value_after(views(t@), option@, 0),
{
    let mut i: usize = 0;
    while i < t.len()
        invariant
            i <= t@.len(),
            value_after(views(t@), option@, i as int) == value_after(views(t@), option@, 0),
        decreases t@.len() - i,
    {
        assert(views(t@)[i as int] == t@[i as int]@);
        if same(t[i].as_str(), option) {
            if i + 1 < t.len() {
                assert(views(t@)[i + 1] == t@[i + 1]@);
                return Some(t[i + 1].clone());
            }
            return None;
        }
        i = i + 1;
    }
    None
}

fn text_is(o: &Option<String>, s: &str) -> (r: bool)
    ensures
        r == (opt(*o) == Some(s@)),
{
    match o {
        Some(v) => same(v.as_str(), s),
        None => false,
    }
}

fn hook_marker_matches(line: &[char], binding: &ChainBinding) -> (r: bool)
    ensures
        r == is_marked(line@, binding@),
{
    let t = split_tokens(line);
    if t.len() < 2 {
        return false;
    }
    assert(views(t@)[0] == t@[0]@ && views(t@)[1] == t@[1]@);
    if !same(t[0].as_str(), "-A") || !same(t[1].as_str(), binding.builtin) {
        return false;
    }
    let marked = match option_value(&t, "--comment") {
        Some(v) => chars_are(trimmed_of(chars_of(v.as_str()).as_slice(), '"'), binding.marker),
        None => false,
    };
    marked && text_is(&option_value(&t, "-j"), binding.managed)
}

fn jump_target_is(line: &[char], binding: &ChainBinding) -> (r: bool)
    ensures
        r == jumps_to(line@, binding@),
{
    let t = split_tokens(line);
    text_is(&option_value(&t, "-j"), binding.managed)
}

fn declaration_of(line: &[char], binding: &ChainBinding) -> (r: bool)
    ensures
        r == declares(line@, binding@),
{
    let mut head = ":".to_owned();
    head.append(binding.managed);
    head.append(" ");
    begins(line, head.as_str())
}

fn tally_chain(rows: &Vec<Vec<char>>, binding: &ChainBinding) -> (r: (usize, usize, usize))
    ensures
        (r.0 as nat, r.1 as nat, r.2 as nat) == tally(views(rows@), binding@, (0, 0, 0), 0),
{
    let ghost all = views(rows@);
    let mut table = String::new();
    let mut declared: usize = 0;
    let mut jumping: usize = 0;
    let mut marked: usize = 0;
    let mut i: usize = 0;
    while i < rows.len()
        invariant
            i <= rows@.len(),
            all == views(rows@),
            declared <= i,
            jumping <= i,
            marked <= i,
            table@ == table_at(all, i as int),
            tally(
                all,
                binding@,
                (declared as nat, jumping as nat, marked as nat),
                i as int,
            ) == tally(all, binding@, (0, 0, 0), 0),
        decreases rows@.len() - i,
    {
        let row = rows[i].as_slice();
        assert(all[i as int] == row@);
        if begins(row, "*") {
            proof {
                reveal_strlit("*");
            }
            let rest = piece(row, 1, row.len());
            assert(rest@ =~= row@.skip(1));
            table = string_of(rest);
        } else if chars_are(row, "COMMIT") {
            table = String::new();
        } else if same(table.as_str(), binding.table) {
            if declaration_of(row, binding) {
                declared = declared + 1;
            }
            if jump_target_is(row, binding) {
                jumping = jumping + 1;
                if hook_marker_matches(row, binding) {
                    marked = marked + 1;
                }
            }
        }
        i = i + 1;
    }
    (declared, jumping, marked)
}

/// Inspects one snapshot of a family.
///
/// The six chains and their six marked jumps must all be absent, or each be there once. Partial
/// state, further jumps, or a chain of the same name without its marker make it fail.
pub fn inspect_iptables_family_state(save: &str) -> (r: Result<
    IptablesFamilyState,
    IptablesRenderError,
>)
    ensures
        vres(r) == family_state(save@),
{
    let cs = chars_of(save);
    if malformed(save, &cs) {
        return Err(IptablesRenderError::MalformedInspection);
    }
    let rows = split_lines(cs.as_slice());
    let owned = chains();
    assert(owned@.len() == owned_chains().len());
    let mut absent = true;
    let mut complete = true;
    let mut k: usize = 0;
    while k < owned.len()
        invariant
            k <= owned@.len(),
            owned@.len() == 6,
            views(owned@) == owned_chains(),
            views(rows@) == lines(save@),
            !is_malformed(save@),
            absent == (forall|j: int|
                0 <= j < k ==> tally_of(save@, #[trigger] owned_chains()[j]).0 == 0 && tally_of(
                    save@,
                    owned_chains()[j],
                ).1 == 0),
            complete == (forall|j: int|
                0 <= j < k ==> tally_of(save@, #[trigger] owned_chains()[j]) == (1nat, 1nat, 1nat)),
        decreases owned@.len() - k,
    {
        assert(owned_chains()[k as int] == owned@[k as int]@);
        let (declared, jumping, marked) = tally_chain(&rows, &owned[k]);
        let ghost counted = tally_of(save@, owned_chains()[k as int]);
        assert(counted == (declared as nat, jumping as nat, marked as nat));
        if declared != 0 || jumping != 0 {
            absent = false;
        }
        if declared != 1 || jumping != 1 || marked != 1 {
            complete = false;
        }
        k = k + 1;
    }
    if absent {
        Ok(IptablesFamilyState::Absent)
    } else if complete {
        Ok(IptablesFamilyState::AgentOwned)
    } else {
        Err(IptablesRenderError::ForeignChains)
    }
}

pub open spec fn projection_error(e: FirewallProjectionError) -> IptablesRenderErrorView {
    match e {
        FirewallProjectionError::InvalidObject => IptablesRenderErrorView::InvalidObject,
        FirewallProjectionError::Ownership => IptablesRenderErrorView::Ownership,
        FirewallProjectionError::PlanMismatch => IptablesRenderErrorView::PlanMismatch,
    }
}

fn map_projection_error(e: FirewallProjectionError) -> (r: IptablesRenderError)
    ensures
        r@ == projection_error(e),
{
    match e {
        FirewallProjectionError::InvalidObject => IptablesRenderError::InvalidObject,
        FirewallProjectionError::Ownership => IptablesRenderError::Ownership,
        FirewallProjectionError::PlanMismatch => IptablesRenderError::PlanMismatch,
    }
}

pub open spec fn unsupported<T>(field: Seq<char>) -> Result<T, IptablesRenderErrorView> {
    Err(IptablesRenderErrorView::UnsupportedField(field))
}

pub open spec fn port_text(p: PortRange) -> Seq<char> {
    if p.start == p.end {
        decimal(p.start as nat)
    } else {
        decimal(p.start as nat) + ":"@ + decimal(p.end as nat)
    }
}

/// The text of an entry of a set of one kind.
pub open spec fn entry_text(e: FirewallSetEntryView, kind: SetKind) -> Option<Seq<char>> {
    match e {
        FirewallSetEntryView::Network(n) => if kind == SetKind::Ipv4Network || kind
            == SetKind::Ipv6Network {
            Some(network_format(n))
        } else {
            None
        },
        FirewallSetEntryView::Mac(m) => if kind == SetKind::Mac {
            Some(m)
        } else {
            None
        },
        FirewallSetEntryView::Port(p) => if kind == SetKind::Port {
            Some(port_text(p))
        } else {
            None
        },
    }
}

/// The kind of a set, by its first entry and its family.
pub open spec fn set_kind(s: FirewallAddressSetView) -> Option<SetKind> {
    if s.entries.len() == 0 {
        None
    } else {
        match s.entries[0] {
            FirewallSetEntryView::Network(_) => match s.family {
                FirewallFamily::Ipv4 => Some(SetKind::Ipv4Network),
                FirewallFamily::Ipv6 => Some(SetKind::Ipv6Network),
                FirewallFamily::Any => None,
            },
            FirewallSetEntryView::Mac(_) => Some(SetKind::Mac),
            FirewallSetEntryView::Port(_) => Some(SetKind::Port),
        }
    }
}

pub open spec fn set_expanded(s: FirewallAddressSetView) -> Option<ExpandedSetView> {
    match set_kind(s) {
        None => None,
        Some(kind) => match map_all(s.entries, |e: FirewallSetEntryView| entry_text(e, kind)) {
            None => None,
            Some(entries) => Some(
                ExpandedSetView { id: s.id, enabled: s.enabled, kind, entries },
            ),
        },
    }
}

/// A context with one more object: zones and forwardings as they come, rules in their order.
pub open spec fn with_object(c: RenderContextView, o: FirewallObjectView) -> Option<
    RenderContextView,
> {
    match o {
        FirewallObjectView::Zone(z) => Some(RenderContextView { zones: c.zones.push(z), ..c }),
        FirewallObjectView::Forwarding(f) => Some(
            RenderContextView { forwardings: c.forwardings.push(f), ..c },
        ),
        FirewallObjectView::FilterRule(r) => Some(
            RenderContextView {
                filter_rules: c.filter_rules.insert(filter_slot(c.filter_rules, r, 0), r),
                ..c
            },
        ),
        FirewallObjectView::NatRule(r) => Some(
            RenderContextView {
                nat_rules: c.nat_rules.insert(nat_slot(c.nat_rules, r, 0), r),
                ..c
            },
        ),
        FirewallObjectView::AddressSet(s) => match set_expanded(s) {
            None => None,
            Some(e) => Some(RenderContextView { sets: c.sets.push(e), ..c }),
        },
    }
}

/// The context of the objects from `i` on.
pub open spec fn context_of(
    c: RenderContextView,
    objects: Seq<FirewallObjectView>,
    i: int,
) -> Option<RenderContextView>
    decreases objects.len() - i,
{
    if i < 0 || i >= objects.len() {
        Some(c)
    } else {
        match with_object(c, objects[i]) {
            None => None,
            Some(next) => context_of(next, objects, i + 1),
        }
    }
}

pub open spec fn empty_context() -> RenderContextView {
    RenderContextView {
        zones: Seq::empty(),
        forwardings: Seq::empty(),
        filter_rules: Seq::empty(),
        nat_rules: Seq::empty(),
        sets: Seq::empty(),
    }
}

/// The first set of a name from `i` on.
pub open spec fn set_from(sets: Seq<ExpandedSetView>, id: Seq<char>, i: int) -> Option<
    ExpandedSetView,
>
    decreases sets.len() - i,
{
    if i < 0 || i >= sets.len() {
        None
    } else if sets[i].id == id {
        Some(sets[i])
    } else {
        set_from(sets, id, i + 1)
    }
}

pub open spec fn is_port_set(sets: Seq<ExpandedSetView>, id: Seq<char>) -> bool {
    match set_from(sets, id, 0) {
        Some(s) => s.kind == SetKind::Port,
        None => false,
    }
}

pub open spec fn has_port_set(sets: Seq<ExpandedSetView>, ids: Seq<Seq<char>>) -> bool {
    exists|i: int| 0 <= i < ids.len() && is_port_set(sets, #[trigger] ids[i])
}

pub open spec fn is_transport(p: Seq<FirewallProtocol>) -> bool {
    p.len() > 0 && forall|i: int|
        0 <= i < p.len() ==> #[trigger] p[i] == FirewallProtocol::Tcp || p[i]
            == FirewallProtocol::Udp
}

pub open spec fn needs_transport(sets: Seq<ExpandedSetView>, m: FirewallMatchView) -> bool {
    m.source_ports.len() > 0 || m.destination_ports.len() > 0 || has_port_set(sets, m.source_sets)
        || has_port_set(sets, m.destination_sets)
}

/// The alternatives made of one base and the options from `j` on, behind `acc`.
pub open spec fn branched(
    acc: Seq<Seq<char>>,
    base: Seq<char>,
    options: Seq<Seq<char>>,
    j: int,
) -> Seq<Seq<char>>
    decreases options.len() - j,
{
    if j < 0 || j >= options.len() {
        acc
    } else {
        branched(acc.push(base + " "@ + options[j]), base, options, j + 1)
    }
}

/// The alternatives made of each base from `i` on and each option, behind `acc`.
pub open spec fn crossed(
    acc: Seq<Seq<char>>,
    bases: Seq<Seq<char>>,
    options: Seq<Seq<char>>,
    i: int,
) -> Seq<Seq<char>>
    decreases bases.len() - i,
{
    if i < 0 || i >= bases.len() {
        acc
    } else {
        crossed(branched(acc, bases[i], options, 0), bases, options, i + 1)
    }
}

/// The alternatives with one more dimension; none where the dimension has no option.
pub open spec fn with_dimension(variants: Seq<Seq<char>>, options: Seq<Seq<char>>) -> Result<
    Seq<Seq<char>>,
    IptablesRenderErrorView,
> {
    if options.len() == 0 {
        Ok(Seq::empty())
    } else if variants.len() * options.len() > MAX_EXPANDED_RULES {
        Err(IptablesRenderErrorView::Capacity)
    } else {
        Ok(crossed(Seq::empty(), variants, options, 0))
    }
}

/// As `with_dimension`, where the dimension matters at all.
pub open spec fn with_some_dimension(
    variants: Result<Seq<Seq<char>>, IptablesRenderErrorView>,
    test: bool,
    options: Seq<Seq<char>>,
) -> Result<Seq<Seq<char>>, IptablesRenderErrorView> {
    match variants {
        Err(e) => Err(e),
        Ok(v) => if test {
            with_dimension(v, options)
        } else {
            Ok(v)
        },
    }
}

pub open spec fn flagged(flag: Seq<char>, values: Seq<Seq<char>>) -> Seq<Seq<char>> {
    Seq::new(values.len(), |i: int| flag + " "@ + values[i])
}

pub open spec fn is_family(a: IpAddr, family: IpFamily) -> bool {
    (a is V4) == (family == IpFamily::Ipv4)
}

/// The networks of a family from `i` on behind a flag, behind `acc`.
pub open spec fn flagged_networks(
    acc: Seq<Seq<char>>,
    flag: Seq<char>,
    networks: Seq<IpNetwork>,
    family: IpFamily,
    i: int,
) -> Seq<Seq<char>>
    decreases networks.len() - i,
{
    if i < 0 || i >= networks.len() {
        acc
    } else if is_family(networks[i].address, family) {
        flagged_networks(
            acc.push(flag + " "@ + network_format(networks[i])),
            flag,
            networks,
            family,
            i + 1,
        )
    } else {
        flagged_networks(acc, flag, networks, family, i + 1)
    }
}

pub open spec fn flagged_ports(flag: Seq<char>, ports: Seq<PortRange>) -> Seq<Seq<char>> {
    Seq::new(ports.len(), |i: int| flag + " "@ + port_text(ports[i]))
}

pub open spec fn flagged_bytes(flag: Seq<char>, values: Seq<u8>) -> Seq<Seq<char>> {
    Seq::new(values.len(), |i: int| flag + " "@ + decimal(values[i] as nat))
}

pub open spec fn protocol_fits(p: FirewallProtocol, family: IpFamily) -> bool {
    !(p == FirewallProtocol::Icmp && family == IpFamily::Ipv6) && !(p == FirewallProtocol::Icmpv6
        && family == IpFamily::Ipv4)
}

/// The protocols of a family from `i` on, behind `acc`.
pub open spec fn fitting_protocols(
    acc: Seq<FirewallProtocol>,
    p: Seq<FirewallProtocol>,
    family: IpFamily,
    i: int,
) -> Seq<FirewallProtocol>
    decreases p.len() - i,
{
    if i < 0 || i >= p.len() {
        acc
    } else if protocol_fits(p[i], family) {
        fitting_protocols(acc.push(p[i]), p, family, i + 1)
    } else {
        fitting_protocols(acc, p, family, i + 1)
    }
}

pub open spec fn protocol_name(p: FirewallProtocol) -> Seq<char> {
    match p {
        FirewallProtocol::Tcp => "tcp"@,
        FirewallProtocol::Udp => "udp"@,
        FirewallProtocol::Icmp => "icmp"@,
        FirewallProtocol::Icmpv6 => "ipv6-icmp"@,
        FirewallProtocol::Esp => "esp"@,
        FirewallProtocol::Ah => "ah"@,
        FirewallProtocol::Gre => "gre"@,
    }
}

pub open spec fn flagged_protocols(p: Seq<FirewallProtocol>) -> Seq<Seq<char>> {
    Seq::new(p.len(), |i: int| "-p "@ + protocol_name(p[i]))
}

pub open spec fn state_name(s: FirewallConntrackState) -> Seq<char> {
    match s {
        FirewallConntrackState::New => "NEW"@,
        FirewallConntrackState::Established => "ESTABLISHED"@,
        FirewallConntrackState::Related => "RELATED"@,
        FirewallConntrackState::Invalid => "INVALID"@,
    }
}

/// The names of the states from `i` on, with commas between all of them, behind `acc`.
pub open spec fn states_text(acc: Seq<char>, s: Seq<FirewallConntrackState>, i: int) -> Seq<char>
    decreases s.len() - i,
{
    if i < 0 || i >= s.len() {
        acc
    } else if i == 0 {
        states_text(acc + state_name(s[i]), s, i + 1)
    } else {
        states_text(acc + ","@ + state_name(s[i]), s, i + 1)
    }
}

pub open spec fn icmp_protocol(family: IpFamily) -> FirewallProtocol {
    if family == IpFamily::Ipv4 {
        FirewallProtocol::Icmp
    } else {
        FirewallProtocol::Icmpv6
    }
}

pub open spec fn icmp_flag(family: IpFamily) -> Seq<char> {
    if family == IpFamily::Ipv4 {
        "--icmp-type"@
    } else {
        "--icmpv6-type"@
    }
}

pub open spec fn dimension_of(kind: SetKind) -> int {
    match kind {
        SetKind::Ipv4Network => 0,
        SetKind::Ipv6Network => 0,
        SetKind::Mac => 1,
        SetKind::Port => 2,
    }
}

/// The options that a set of a family adds, if a packet of the family can match it.
pub open spec fn set_options(s: ExpandedSetView, family: IpFamily, source: bool) -> Result<
    Option<Seq<Seq<char>>>,
    IptablesRenderErrorView,
> {
    let network_flag = if source {
        "-s"@
    } else {
        "-d"@
    };
    match s.kind {
        SetKind::Ipv4Network => if family == IpFamily::Ipv4 {
            Ok(Some(flagged(network_flag, s.entries)))
        } else {
            Ok(None)
        },
        SetKind::Ipv6Network => if family == IpFamily::Ipv6 {
            Ok(Some(flagged(network_flag, s.entries)))
        } else {
            Ok(None)
        },
        SetKind::Mac => if source {
            Ok(Some(flagged("-m mac --mac-source"@, s.entries)))
        } else {
            unsupported("iptables destination MAC matching"@)
        },
        SetKind::Port => Ok(
            Some(
                flagged(
                    if source {
                        "--sport"@
                    } else {
                        "--dport"@
                    },
                    s.entries,
                ),
            ),
        ),
    }
}

/// Whether a set before `i` restricts the same dimension as the set at `i`.
pub open spec fn dimension_used(sets: Seq<ExpandedSetView>, ids: Seq<Seq<char>>, i: int) -> bool {
    exists|j: int|
        0 <= j < i && (set_from(sets, #[trigger] ids[j], 0) matches Some(a) && set_from(
            sets,
            ids[i],
            0,
        ) matches Some(b) && dimension_of(a.kind) == dimension_of(b.kind))
}

/// The alternatives with a dimension for each set from `i` on. A network set of the other family
/// leaves no alternative, whatever sets follow it.
pub open spec fn with_sets(
    variants: Seq<Seq<char>>,
    sets: Seq<ExpandedSetView>,
    ids: Seq<Seq<char>>,
    family: IpFamily,
    source: bool,
    i: int,
) -> Result<Seq<Seq<char>>, IptablesRenderErrorView>
    decreases ids.len() - i,
{
    if i < 0 || i >= ids.len() {
        Ok(variants)
    } else {
        match set_from(sets, ids[i], 0) {
            None => Err(IptablesRenderErrorView::MissingReference),
            Some(s) => if !s.enabled {
                Err(IptablesRenderErrorView::MissingReference)
            } else if dimension_used(sets, ids, i) {
                unsupported("multiple same-dimension sets require explicit rule expansion"@)
            } else {
                match set_options(s, family, source) {
                    Err(e) => Err(e),
                    Ok(None) => Ok(Seq::empty()),
                    Ok(Some(options)) => match with_dimension(variants, options) {
                        Err(e) => Err(e),
                        Ok(next) => with_sets(next, sets, ids, family, source, i + 1),
                    },
                }
            },
        }
    }
}

pub open spec fn family_fits(f: FirewallFamily, family: IpFamily) -> bool {
    match f {
        FirewallFamily::Any => true,
        FirewallFamily::Ipv4 => family == IpFamily::Ipv4,
        FirewallFamily::Ipv6 => family == IpFamily::Ipv6,
    }
}

/// Whether a match asks for what does not exist where the packet is seen.
pub open spec fn is_misplaced(m: FirewallMatchView, direction: FirewallDirection) -> bool {
    match direction {
        FirewallDirection::Input => m.destination_zones.len() > 0 || m.output_interfaces.len() > 0,
        FirewallDirection::Output => m.source_zones.len() > 0 || m.input_interfaces.len() > 0,
        FirewallDirection::Forward => false,
    }
}

/// The alternatives by zones and interfaces.
pub open spec fn placed(
    m: FirewallMatchView,
    direction: FirewallDirection,
    sources: Seq<Seq<char>>,
    destinations: Seq<Seq<char>>,
) -> Result<Seq<Seq<char>>, IptablesRenderErrorView> {
    let source_flag = if direction == FirewallDirection::Output {
        "-o"@
    } else {
        "-i"@
    };
    let zoned = with_some_dimension(
        Ok(seq![Seq::empty()]),
        sources.len() > 0,
        flagged(source_flag, sources),
    );
    let both = match zoned {
        Err(e) => Err(e),
        Ok(v) => if destinations.len() > 0 && direction != FirewallDirection::Forward {
            unsupported("destination zone for non-forward direction"@)
        } else {
            with_some_dimension(Ok(v), destinations.len() > 0, flagged("-o"@, destinations))
        },
    };
    let input = with_some_dimension(
        both,
        m.input_interfaces.len() > 0,
        flagged("-i"@, m.input_interfaces),
    );
    with_some_dimension(input, m.output_interfaces.len() > 0, flagged("-o"@, m.output_interfaces))
}

/// The alternatives with the addresses that a rule matches.
pub open spec fn addressed(
    v: Result<Seq<Seq<char>>, IptablesRenderErrorView>,
    m: FirewallMatchView,
    family: IpFamily,
) -> Result<Seq<Seq<char>>, IptablesRenderErrorView> {
    let source = with_some_dimension(
        v,
        m.source_networks.len() > 0,
        flagged_networks(Seq::empty(), "-s"@, m.source_networks, family, 0),
    );
    let destination = with_some_dimension(
        source,
        m.destination_networks.len() > 0,
        flagged_networks(Seq::empty(), "-d"@, m.destination_networks, family, 0),
    );
    with_some_dimension(
        destination,
        m.source_macs.len() > 0,
        flagged("-m mac --mac-source"@, m.source_macs),
    )
}

/// The alternatives with the protocols, ports, states and ICMP types that a rule matches.
pub open spec fn transported(
    v: Result<Seq<Seq<char>>, IptablesRenderErrorView>,
    m: FirewallMatchView,
    family: IpFamily,
) -> Result<Seq<Seq<char>>, IptablesRenderErrorView> {
    let fitting = fitting_protocols(Seq::empty(), m.protocols, family, 0);
    match v {
        Err(e) => Err(e),
        Ok(start) => if m.icmp_types.len() > 0 && fitting.len() > 0 && fitting != seq![
            icmp_protocol(family),
        ] {
            unsupported("ICMP types combined with another protocol"@)
        } else {
            let protocols = with_some_dimension(
                Ok(start),
                m.protocols.len() > 0,
                flagged_protocols(fitting),
            );
            let source = with_some_dimension(
                protocols,
                m.source_ports.len() > 0,
                flagged_ports("--sport"@, m.source_ports),
            );
            let destination = with_some_dimension(
                source,
                m.destination_ports.len() > 0,
                flagged_ports("--dport"@, m.destination_ports),
            );
            let states = with_some_dimension(
                destination,
                m.conntrack_states.len() > 0,
                seq!["-m conntrack --ctstate "@ + states_text(Seq::empty(), m.conntrack_states, 0)],
            );
            with_some_dimension(
                states,
                m.icmp_types.len() > 0,
                flagged_bytes(icmp_flag(family), m.icmp_types),
            )
        },
    }
}

/// The alternatives that together match what a rule matches, in one family.
pub open spec fn alternatives(
    c: RenderContextView,
    m: FirewallMatchView,
    direction: FirewallDirection,
    family: IpFamily,
) -> Result<Seq<Seq<char>>, IptablesRenderErrorView> {
    if !family_fits(m.family, family) {
        Ok(Seq::empty())
    } else if is_misplaced(m, direction) {
        unsupported("zone/interface does not exist at this hook"@)
    } else if needs_transport(c.sets, m) && !is_transport(m.protocols) {
        unsupported("ports require only TCP/UDP protocols"@)
    } else {
        match (interfaces_of(c.zones, m.source_zones), interfaces_of(c.zones, m.destination_zones)) {
            (Some(sources), Some(destinations)) => match transported(
                addressed(placed(m, direction, sources, destinations), m, family),
                m,
                family,
            ) {
                Err(e) => Err(e),
                Ok(v) => match with_sets(v, c.sets, m.source_sets, family, true, 0) {
                    Err(e) => Err(e),
                    Ok(w) => with_sets(w, c.sets, m.destination_sets, family, false, 0),
                },
            },
            _ => Err(IptablesRenderErrorView::MissingReference),
        }
    }
}

pub open spec fn chain_of(direction: FirewallDirection) -> Seq<char> {
    match direction {
        FirewallDirection::Input => "MBED_INPUT"@,
        FirewallDirection::Output => "MBED_OUTPUT"@,
        FirewallDirection::Forward => "MBED_FORWARD"@,
    }
}

pub open spec fn reject_fits(r: Option<FirewallRejectKind>, family: IpFamily) -> bool {
    match r {
        None => true,
        Some(FirewallRejectKind::TcpReset) => true,
        Some(FirewallRejectKind::IcmpPortUnreachable) => family == IpFamily::Ipv4,
        Some(FirewallRejectKind::IcmpHostUnreachable) => family == IpFamily::Ipv4,
        Some(FirewallRejectKind::Icmp6PortUnreachable) => family == IpFamily::Ipv6,
    }
}

pub open spec fn target_of(
    verdict: FirewallVerdict,
    reject: Option<FirewallRejectKind>,
    family: IpFamily,
) -> Option<Seq<char>> {
    match (verdict, reject) {
        (FirewallVerdict::Accept, None) => Some("-j ACCEPT"@),
        (FirewallVerdict::Drop, None) => Some("-j DROP"@),
        (FirewallVerdict::Reject, None) => Some("-j REJECT"@),
        (FirewallVerdict::Reject, Some(FirewallRejectKind::TcpReset)) => Some(
            "-j REJECT --reject-with tcp-reset"@,
        ),
        (FirewallVerdict::Reject, Some(FirewallRejectKind::IcmpPortUnreachable)) => if family
            == IpFamily::Ipv4 {
            Some("-j REJECT --reject-with icmp-port-unreachable"@)
        } else {
            None
        },
        (FirewallVerdict::Reject, Some(FirewallRejectKind::IcmpHostUnreachable)) => if family
            == IpFamily::Ipv4 {
            Some("-j REJECT --reject-with icmp-host-unreachable"@)
        } else {
            None
        },
        (FirewallVerdict::Reject, Some(FirewallRejectKind::Icmp6PortUnreachable)) => if family
            == IpFamily::Ipv6 {
            Some("-j REJECT --reject-with icmp6-port-unreachable"@)
        } else {
            None
        },
        _ => None,
    }
}

pub open spec fn level_name(l: FirewallLogLevel) -> Seq<char> {
    match l {
        FirewallLogLevel::Emergency => "emerg"@,
        FirewallLogLevel::Alert => "alert"@,
        FirewallLogLevel::Critical => "crit"@,
        FirewallLogLevel::Error => "error"@,
        FirewallLogLevel::Warning => "warning"@,
        FirewallLogLevel::Notice => "notice"@,
        FirewallLogLevel::Info => "info"@,
        FirewallLogLevel::Debug => "debug"@,
    }
}

/// Whether a text can stand between double quotes.
pub open spec fn is_double_quotable(s: Seq<char>) -> bool {
    s.len() > 0 && forall|i: int|
        0 <= i < s.len() ==> !is_ascii_control(#[trigger] s[i]) && s[i] != '"' && s[i] != '\\'
}

/// What has been written of a restore artifact, and how many rules it holds.
pub struct Draft {
    pub text: String,
    pub count: usize,
}

#[verifier::ext_equal]
pub struct DraftView {
    pub text: Seq<char>,
    pub count: int,
}

impl View for Draft {
    type V = DraftView;

    open spec fn view(&self) -> DraftView {
        DraftView { text: self.text@, count: self.count as int }
    }
}

/// A draft with one more rule, as far as there is room for it.
pub open spec fn counted(d: DraftView) -> Result<DraftView, IptablesRenderErrorView> {
    if d.count + 1 > MAX_EXPANDED_RULES {
        Err(IptablesRenderErrorView::Capacity)
    } else {
        Ok(DraftView { count: d.count + 1, ..d })
    }
}

pub open spec fn written(d: DraftView, line: Seq<char>) -> DraftView {
    DraftView { text: d.text + line, ..d }
}

pub open spec fn log_line(
    chain: Seq<char>,
    matcher: Seq<char>,
    id: Seq<char>,
    prefix: Seq<char>,
    level: FirewallLogLevel,
) -> Seq<char> {
    "-A "@ + chain + matcher
        + " -m limit --limit 1/second --limit-burst 5 -m comment --comment mbed:"@ + id
        + " -j LOG --log-prefix \""@ + prefix + "\" --log-level "@ + level_name(level) + "\n"@
}

pub open spec fn limit_text(l: Option<FirewallRateLimit>) -> Seq<char> {
    match l {
        Some(l) => " -m limit --limit "@ + decimal(l.packets_per_second as nat)
            + "/second --limit-burst "@ + decimal(l.burst as nat),
        None => Seq::empty(),
    }
}

pub open spec fn rule_line(
    chain: Seq<char>,
    matcher: Seq<char>,
    limit: Seq<char>,
    id: Seq<char>,
    target: Seq<char>,
) -> Seq<char> {
    "-A "@ + chain + matcher + limit + " -m comment --comment mbed:"@ + id + " "@ + target + "\n"@
}

/// A draft with the log rule of one alternative, where the rule logs.
pub open spec fn logged(
    d: DraftView,
    r: FirewallFilterRuleView,
    matcher: Seq<char>,
) -> Result<DraftView, IptablesRenderErrorView> {
    match r.log {
        None => Ok(d),
        Some(log) => if byte_len(log.prefix) > 29 {
            unsupported("iptables LOG prefix exceeds 29 bytes"@)
        } else {
            match counted(d) {
                Err(e) => Err(e),
                Ok(next) => if is_double_quotable(log.prefix) {
                    Ok(
                        written(
                            next,
                            log_line(chain_of(r.direction), matcher, r.id, log.prefix, log.level),
                        ),
                    )
                } else {
                    Err(IptablesRenderErrorView::UnsafeValue)
                },
            }
        },
    }
}

/// A draft with the rules of one alternative.
pub open spec fn matched(
    d: DraftView,
    r: FirewallFilterRuleView,
    matcher: Seq<char>,
    family: IpFamily,
) -> Result<DraftView, IptablesRenderErrorView> {
    match logged(d, r, matcher) {
        Err(e) => Err(e),
        Ok(next) => match counted(next) {
            Err(e) => Err(e),
            Ok(room) => match target_of(r.verdict, r.reject_with, family) {
                None => unsupported("reject kind does not match iptables address family"@),
                Some(target) => Ok(
                    written(
                        room,
                        rule_line(
                            chain_of(r.direction),
                            matcher,
                            limit_text(r.rate_limit),
                            r.id,
                            target,
                        ),
                    ),
                ),
            },
        },
    }
}

/// A draft with the rules of the alternatives from `i` on.
pub open spec fn all_matched(
    d: DraftView,
    r: FirewallFilterRuleView,
    matchers: Seq<Seq<char>>,
    family: IpFamily,
    i: int,
) -> Result<DraftView, IptablesRenderErrorView>
    decreases matchers.len() - i,
{
    if i < 0 || i >= matchers.len() {
        Ok(d)
    } else {
        match matched(d, r, matchers[i], family) {
            Err(e) => Err(e),
            Ok(next) => all_matched(next, r, matchers, family, i + 1),
        }
    }
}

/// A draft with a filter rule.
pub open spec fn filtered(
    d: DraftView,
    c: RenderContextView,
    r: FirewallFilterRuleView,
    family: IpFamily,
) -> Result<DraftView, IptablesRenderErrorView> {
    if !r.enabled {
        Ok(d)
    } else if r.reject_with == Some(FirewallRejectKind::TcpReset) && r.matches.protocols != seq![
        FirewallProtocol::Tcp,
    ] {
        unsupported("TCP reset reject requires exactly TCP"@)
    } else if !reject_fits(r.reject_with, family) {
        Ok(d)
    } else {
        match alternatives(c, r.matches, r.direction, family) {
            Err(e) => Err(e),
            Ok(matchers) => if r.rate_limit is Some && matchers.len() > 1 {
                unsupported("rate limit across expanded iptables alternatives"@)
            } else {
                all_matched(d, r, matchers, family, 0)
            },
        }
    }
}

/// A draft with the filter rules from `i` on.
pub open spec fn all_filtered(
    d: DraftView,
    c: RenderContextView,
    family: IpFamily,
    i: int,
) -> Result<DraftView, IptablesRenderErrorView>
    decreases c.filter_rules.len() - i,
{
    if i < 0 || i >= c.filter_rules.len() {
        Ok(d)
    } else {
        match filtered(d, c, c.filter_rules[i], family) {
            Err(e) => Err(e),
            Ok(next) => all_filtered(next, c, family, i + 1),
        }
    }
}

pub open spec fn forward_line(input: Seq<char>, output: Seq<char>, id: Seq<char>) -> Seq<char> {
    "-A MBED_FORWARD -i "@ + input + " -o "@ + output + " -m comment --comment mbed:"@ + id
        + " -j ACCEPT\n"@
}

/// A draft with the rules from one interface to those from `j` on.
pub open spec fn forwarded_to(
    d: DraftView,
    input: Seq<char>,
    outputs: Seq<Seq<char>>,
    id: Seq<char>,
    j: int,
) -> Result<DraftView, IptablesRenderErrorView>
    decreases outputs.len() - j,
{
    if j < 0 || j >= outputs.len() {
        Ok(d)
    } else {
        match counted(d) {
            Err(e) => Err(e),
            Ok(room) => forwarded_to(
                written(room, forward_line(input, outputs[j], id)),
                input,
                outputs,
                id,
                j + 1,
            ),
        }
    }
}

/// A draft with the rules from the interfaces from `i` on to all of another zone.
pub open spec fn forwarded_from(
    d: DraftView,
    inputs: Seq<Seq<char>>,
    outputs: Seq<Seq<char>>,
    id: Seq<char>,
    i: int,
) -> Result<DraftView, IptablesRenderErrorView>
    decreases inputs.len() - i,
{
    if i < 0 || i >= inputs.len() {
        Ok(d)
    } else {
        match forwarded_to(d, inputs[i], outputs, id, 0) {
            Err(e) => Err(e),
            Ok(next) => forwarded_from(next, inputs, outputs, id, i + 1),
        }
    }
}

/// A draft with the forwardings from `i` on.
pub open spec fn forwarded(
    d: DraftView,
    c: RenderContextView,
    i: int,
) -> Result<DraftView, IptablesRenderErrorView>
    decreases c.forwardings.len() - i,
{
    if i < 0 || i >= c.forwardings.len() {
        Ok(d)
    } else if !c.forwardings[i].enabled {
        forwarded(d, c, i + 1)
    } else {
        match (
            zone_from(c.zones, c.forwardings[i].source_zone, 0),
            zone_from(c.zones, c.forwardings[i].destination_zone, 0),
        ) {
            (Some(s), Some(t)) => match forwarded_from(
                d,
                s.networks,
                t.networks,
                c.forwardings[i].id,
                0,
            ) {
                Err(e) => Err(e),
                Ok(next) => forwarded(next, c, i + 1),
            },
            _ => Err(IptablesRenderErrorView::MissingReference),
        }
    }
}

pub open spec fn policy_line(
    chain: Seq<char>,
    flag: Seq<char>,
    interface: Seq<char>,
    id: Seq<char>,
    verdict: FirewallVerdict,
) -> Seq<char> {
    "-A "@ + chain + " "@ + flag + " "@ + interface + " -m comment --comment mbed:zone:"@ + id
        + " "@ + target_of(verdict, None, IpFamily::Ipv4)->Some_0 + "\n"@
}

pub open spec fn policy(
    d: Result<DraftView, IptablesRenderErrorView>,
    line: Seq<char>,
) -> Result<DraftView, IptablesRenderErrorView> {
    match d {
        Err(e) => Err(e),
        Ok(d) => match counted(d) {
            Err(e) => Err(e),
            Ok(room) => Ok(written(room, line)),
        },
    }
}

/// A draft with the policies of a zone on its interfaces from `i` on.
pub open spec fn zone_policies(
    d: DraftView,
    z: FirewallZoneView,
    i: int,
) -> Result<DraftView, IptablesRenderErrorView>
    decreases z.networks.len() - i,
{
    if i < 0 || i >= z.networks.len() {
        Ok(d)
    } else {
        let input = policy(
            Ok(d),
            policy_line("MBED_INPUT"@, "-i"@, z.networks[i], z.id, z.input),
        );
        let output = policy(
            input,
            policy_line("MBED_OUTPUT"@, "-o"@, z.networks[i], z.id, z.output),
        );
        match policy(
            output,
            policy_line("MBED_FORWARD"@, "-i"@, z.networks[i], z.id, z.forward),
        ) {
            Err(e) => Err(e),
            Ok(next) => zone_policies(next, z, i + 1),
        }
    }
}

/// A draft with the policies of the zones from `i` on.
pub open spec fn policies(
    d: DraftView,
    zones: Seq<FirewallZoneView>,
    i: int,
) -> Result<DraftView, IptablesRenderErrorView>
    decreases zones.len() - i,
{
    if i < 0 || i >= zones.len() {
        Ok(d)
    } else if !zones[i].enabled {
        policies(d, zones, i + 1)
    } else {
        match zone_policies(d, zones[i], 0) {
            Err(e) => Err(e),
            Ok(next) => policies(next, zones, i + 1),
        }
    }
}

pub open spec fn mtu_line(interface: Seq<char>, id: Seq<char>) -> Seq<char> {
    "-A MBED_MANGLE_FORWARD -o "@ + interface
        + " -p tcp --tcp-flags SYN,RST SYN -m comment --comment mbed:mtu:"@ + id
        + " -j TCPMSS --clamp-mss-to-pmtu\n"@
}

pub open spec fn masquerade_line(interface: Seq<char>, id: Seq<char>) -> Seq<char> {
    "-A MBED_POSTROUTING -o "@ + interface + " -m comment --comment mbed:masq:"@ + id
        + " -j MASQUERADE\n"@
}

/// A draft with one line for each interface of a zone from `i` on.
pub open spec fn zone_lines(
    d: DraftView,
    z: FirewallZoneView,
    mtu: bool,
    i: int,
) -> Result<DraftView, IptablesRenderErrorView>
    decreases z.networks.len() - i,
{
    if i < 0 || i >= z.networks.len() {
        Ok(d)
    } else {
        match counted(d) {
            Err(e) => Err(e),
            Ok(room) => zone_lines(
                written(
                    room,
                    if mtu {
                        mtu_line(z.networks[i], z.id)
                    } else {
                        masquerade_line(z.networks[i], z.id)
                    },
                ),
                z,
                mtu,
                i + 1,
            ),
        }
    }
}

/// A draft with the lines of the zones from `i` on that ask for them.
pub open spec fn all_zone_lines(
    d: DraftView,
    zones: Seq<FirewallZoneView>,
    mtu: bool,
    i: int,
) -> Result<DraftView, IptablesRenderErrorView>
    decreases zones.len() - i,
{
    if i < 0 || i >= zones.len() {
        Ok(d)
    } else if !(zones[i].enabled && (if mtu {
        zones[i].mtu_fix
    } else {
        zones[i].masquerade
    })) {
        all_zone_lines(d, zones, mtu, i + 1)
    } else {
        match zone_lines(d, zones[i], mtu, 0) {
            Err(e) => Err(e),
            Ok(next) => all_zone_lines(next, zones, mtu, i + 1),
        }
    }
}

/// The translation endpoint, with brackets where a port follows an address with colons.
pub open spec fn endpoint(a: IpAddr, p: Option<PortRange>) -> Seq<char> {
    match p {
        None => address_format(a),
        Some(p) => match a {
            IpAddr::V4(_) => address_format(a) + ":"@ + port_text(p),
            IpAddr::V6(_) => "["@ + address_format(a) + "]:"@ + port_text(p),
        },
    }
}

/// The target of a translation rule, if it concerns the family.
pub open spec fn translation(r: FirewallNatRuleView, family: IpFamily) -> Result<
    Option<Seq<char>>,
    IptablesRenderErrorView,
> {
    if r.translation_address is Some && !is_family(r.translation_address->Some_0, family) {
        Ok(None)
    } else {
        match r.kind {
            FirewallNatKind::Masquerade => Ok(Some("-j MASQUERADE"@)),
            FirewallNatKind::Redirect => match r.translation_port {
                None => Err(IptablesRenderErrorView::InvalidObject),
                Some(p) => Ok(Some("-j REDIRECT --to-ports "@ + port_text(p))),
            },
            FirewallNatKind::DestinationNat => match r.translation_address {
                None => Err(IptablesRenderErrorView::InvalidObject),
                Some(a) => Ok(
                    Some("-j DNAT --to-destination "@ + endpoint(a, r.translation_port)),
                ),
            },
            FirewallNatKind::SourceNat => match r.translation_address {
                None => Err(IptablesRenderErrorView::InvalidObject),
                Some(a) => Ok(Some("-j SNAT --to-source "@ + endpoint(a, r.translation_port))),
            },
        }
    }
}

pub open spec fn is_prerouting(k: FirewallNatKind) -> bool {
    k == FirewallNatKind::DestinationNat || k == FirewallNatKind::Redirect
}

pub open spec fn nat_chain(k: FirewallNatKind) -> Seq<char> {
    if is_prerouting(k) {
        "MBED_PREROUTING"@
    } else {
        "MBED_POSTROUTING"@
    }
}

/// A draft with the translation rules of the alternatives from `i` on.
pub open spec fn all_translated(
    d: DraftView,
    r: FirewallNatRuleView,
    matchers: Seq<Seq<char>>,
    family: IpFamily,
    i: int,
) -> Result<DraftView, IptablesRenderErrorView>
    decreases matchers.len() - i,
{
    if i < 0 || i >= matchers.len() {
        Ok(d)
    } else {
        match translation(r, family) {
            Err(e) => Err(e),
            Ok(None) => all_translated(d, r, matchers, family, i + 1),
            Ok(Some(target)) => match counted(d) {
                Err(e) => Err(e),
                Ok(room) => all_translated(
                    written(
                        room,
                        rule_line(nat_chain(r.kind), matchers[i], Seq::empty(), r.id, target),
                    ),
                    r,
                    matchers,
                    family,
                    i + 1,
                ),
            },
        }
    }
}

/// A draft with the translation rules from `i` on.
pub open spec fn translated(
    d: DraftView,
    c: RenderContextView,
    family: IpFamily,
    i: int,
) -> Result<DraftView, IptablesRenderErrorView>
    decreases c.nat_rules.len() - i,
{
    if i < 0 || i >= c.nat_rules.len() {
        Ok(d)
    } else {
        let r = c.nat_rules[i];
        if !r.enabled {
            translated(d, c, family, i + 1)
        } else if is_prerouting(r.kind) && (r.matches.destination_zones.len() > 0
            || r.matches.output_interfaces.len() > 0) {
            unsupported("DNAT destination zone/output interface in prerouting"@)
        } else {
            match alternatives(
                c,
                r.matches,
                if is_prerouting(r.kind) {
                    FirewallDirection::Input
                } else {
                    FirewallDirection::Forward
                },
                family,
            ) {
                Err(e) => Err(e),
                Ok(matchers) => match all_translated(d, r, matchers, family, 0) {
                    Err(e) => Err(e),
                    Ok(next) => translated(next, c, family, i + 1),
                },
            }
        }
    }
}

pub open spec fn declare_line(c: ChainBindingView) -> Seq<char> {
    ":"@ + c.managed + " - [0:0]\n"@
}

pub open spec fn hook_line(c: ChainBindingView) -> Seq<char> {
    "-A "@ + c.builtin + " -m comment --comment "@ + c.marker + " -j "@ + c.managed + "\n"@
}

/// The declarations of a table's chains from `k` on, with their hooks where they are absent.
pub open spec fn headed(
    text: Seq<char>,
    table: Seq<char>,
    state: IptablesFamilyState,
    k: int,
) -> Seq<char>
    decreases 6 - k,
{
    if k < 0 || k >= 6 {
        text
    } else if owned_chains()[k].table != table {
        headed(text, table, state, k + 1)
    } else if state == IptablesFamilyState::Absent {
        headed(
            text + declare_line(owned_chains()[k]) + hook_line(owned_chains()[k]),
            table,
            state,
            k + 1,
        )
    } else {
        headed(text + declare_line(owned_chains()[k]), table, state, k + 1)
    }
}

/// A draft with the head of a table.
pub open spec fn opened(
    d: DraftView,
    table: Seq<char>,
    state: IptablesFamilyState,
) -> DraftView {
    DraftView { text: headed(d.text + "*"@ + table + "\n"@, table, state, 0), ..d }
}

/// The filter table behind a draft.
pub open spec fn filter_table(
    d: DraftView,
    c: RenderContextView,
    family: IpFamily,
    state: IptablesFamilyState,
) -> Result<DraftView, IptablesRenderErrorView> {
    match all_filtered(opened(d, "filter"@, state), c, family, 0) {
        Err(e) => Err(e),
        Ok(d1) => match forwarded(d1, c, 0) {
            Err(e) => Err(e),
            Ok(d2) => match policies(d2, c.zones, 0) {
                Err(e) => Err(e),
                Ok(d3) => Ok(written(d3, "COMMIT\n"@)),
            },
        },
    }
}

/// The mangle table behind a draft.
pub open spec fn mangle_table(
    d: DraftView,
    c: RenderContextView,
    state: IptablesFamilyState,
) -> Result<DraftView, IptablesRenderErrorView> {
    match all_zone_lines(opened(d, "mangle"@, state), c.zones, true, 0) {
        Err(e) => Err(e),
        Ok(d1) => Ok(written(d1, "COMMIT\n"@)),
    }
}

/// The nat table behind a draft.
pub open spec fn nat_table(
    d: DraftView,
    c: RenderContextView,
    family: IpFamily,
    state: IptablesFamilyState,
) -> Result<DraftView, IptablesRenderErrorView> {
    match translated(opened(d, "nat"@, state), c, family, 0) {
        Err(e) => Err(e),
        Ok(d1) => match all_zone_lines(d1, c.zones, false, 0) {
            Err(e) => Err(e),
            Ok(d2) => Ok(written(d2, "COMMIT\n"@)),
        },
    }
}

/// The restore artifact of a family.
#[verifier::opaque]
pub open spec fn family_restore(
    c: RenderContextView,
    family: IpFamily,
    state: IptablesFamilyState,
) -> Result<Seq<char>, IptablesRenderErrorView> {
    match filter_table(DraftView { text: Seq::empty(), count: 0 }, c, family, state) {
        Err(e) => Err(e),
        Ok(d1) => match mangle_table(d1, c, state) {
            Err(e) => Err(e),
            Ok(d2) => match nat_table(d2, c, family, state) {
                Err(e) => Err(e),
                Ok(d3) => if byte_len(d3.text) > MAX_RESTORE_BYTES {
                    Err(IptablesRenderErrorView::Capacity)
                } else {
                    Ok(d3.text)
                },
            },
        },
    }
}

/// The stage that an inventory and a plan become.
pub open spec fn iptables_stage(
    objects: Seq<FirewallObjectView>,
    valid: Seq<bool>,
    changes: Seq<FirewallPlannedChangeView>,
    ipv4_state: IptablesFamilyState,
    ipv6_state: IptablesFamilyState,
) -> Result<IptablesFirewallStageView, IptablesRenderErrorView> {
    match projected(objects, valid, changes) {
        Err(e) => Err(projection_error(e)),
        Ok(owned) => match context_of(empty_context(), owned, 0) {
            None => Err(IptablesRenderErrorView::InvalidObject),
            Some(c) => match family_restore(c, IpFamily::Ipv4, ipv4_state) {
                Err(e) => Err(e),
                Ok(ipv4_restore) => match family_restore(c, IpFamily::Ipv6, ipv6_state) {
                    Err(e) => Err(e),
                    Ok(ipv6_restore) => Ok(
                        IptablesFirewallStageView {
                            ipv4_restore,
                            ipv6_restore,
                            validations: seq![
                                IptablesOperation::ValidateIpv4,
                                IptablesOperation::ValidateIpv6,
                            ],
                            activations: seq![
                                IptablesOperation::LoadIpv4,
                                IptablesOperation::LoadIpv6,
                            ],
                            coexistence: IptablesCoexistence::AppendedTerminal,
                            rollback_required: true,
                        },
                    ),
                },
            },
        },
    }
}

fn iptables_port(value: PortRange) -> (r: String)
    ensures
        r@ == port_text(value),
{
    let mut r = decimal_text(value.start as u64);
    if value.start != value.end {
        r.append(":");
        r.append(decimal_text(value.end as u64).as_str());
    }
    r
}

fn render_entry(entry: &FirewallSetEntry, kind: SetKind) -> (r: Option<String>)
    ensures
        opt(r) == entry_text(entry@, kind),
{
    match entry {
        FirewallSetEntry::Network(n) => if kind == SetKind::Ipv4Network || kind
            == SetKind::Ipv6Network {
            Some(n.text())
        } else {
            None
        },
        FirewallSetEntry::Mac(m) => if kind == SetKind::Mac {
            Some(m.clone())
        } else {
            None
        },
        FirewallSetEntry::Port(p) => if kind == SetKind::Port {
            Some(iptables_port(*p))
        } else {
            None
        },
    }
}

fn expanded_set(value: &FirewallAddressSet) -> (r: Option<ExpandedSet>)
    ensures
        opt(r) == set_expanded(value@),
{
    if value.entries.len() == 0 {
        return None;
    }
    assert(value@.entries[0] == value.entries@[0]@);
    let kind = match &value.entries[0] {
        FirewallSetEntry::Network(_) => match value.family {
            FirewallFamily::Ipv4 => SetKind::Ipv4Network,
            FirewallFamily::Ipv6 => SetKind::Ipv6Network,
            FirewallFamily::Any => {
                return None;
            },
        },
        FirewallSetEntry::Mac(_) => SetKind::Mac,
        FirewallSetEntry::Port(_) => SetKind::Port,
    };
    let ghost all = value@.entries;
    let ghost f = |e: FirewallSetEntryView| entry_text(e, kind);
    let mut entries: Vec<String> = Vec::new();
    let mut i: usize = 0;
    while i < value.entries.len()
        invariant
            i <= value.entries@.len(),
            all == views(value.entries@),
            all == value@.entries,
            set_kind(value@) == Some(kind),
            f == (|e: FirewallSetEntryView| entry_text(e, kind)),
            entries@.len() == i,
            forall|j: int| 0 <= j < i ==> f(#[trigger] all[j]) is Some,
            forall|j: int| 0 <= j < i ==> #[trigger] views(entries@)[j] == f(all[j])->Some_0,
        decreases value.entries@.len() - i,
    {
        assert(all[i as int] == value.entries@[i as int]@);
        match render_entry(&value.entries[i], kind) {
            Some(t) => entries.push(t),
            None => {
                assert(f(all[i as int]) is None);
                return None;
            },
        }
        i = i + 1;
    }
    assert(views(entries@) =~= Seq::new(all.len(), |i: int| f(all[i])->Some_0));
    Some(ExpandedSet { id: value.id.clone(), enabled: value.enabled, kind, entries })
}

/// Appends one more dimension to the alternatives.
fn add_dimension(variants: Vec<String>, options: &Vec<String>) -> (r: Result<
    Vec<String>,
    IptablesRenderError,
>)
    ensures
        lvres(r) == with_dimension(views(variants@), views(options@)),
{
    if options.len() == 0 {
        return Ok(Vec::new());
    }
    let n: usize = variants.len();
    let m: usize = options.len();
    if n > MAX_EXPANDED_RULES || m > MAX_EXPANDED_RULES {
        if n == 0 {
            assert(views(variants@).len() * views(options@).len() == 0) by (nonlinear_arith)
                requires
                    views(variants@).len() == 0,
            ;
            return Ok(Vec::new());
        }
        assert(views(variants@).len() * views(options@).len() > MAX_EXPANDED_RULES)
            by (nonlinear_arith)
            requires
                views(variants@).len() >= 1,
                views(options@).len() >= 1,
                views(variants@).len() > MAX_EXPANDED_RULES || views(options@).len()
                    > MAX_EXPANDED_RULES,
        ;
        return Err(IptablesRenderError::Capacity);
    }
    assert(n * m <= 1024 * 1024) by (nonlinear_arith)
        requires
            n <= 1024,
            m <= 1024,
    ;
    if n * m > MAX_EXPANDED_RULES {
        return Err(IptablesRenderError::Capacity);
    }
    let mut r: Vec<String> = Vec::new();
    let mut i: usize = 0;
    while i < variants.len()
        invariant
            i <= variants@.len(),
            crossed(views(r@), views(variants@), views(options@), i as int) == crossed(
                Seq::empty(),
                views(variants@),
                views(options@),
                0,
            ),
        decreases variants@.len() - i,
    {
        assert(views(variants@)[i as int] == variants@[i as int]@);
        let ghost start = views(r@);
        let mut j: usize = 0;
        while j < options.len()
            invariant
                j <= options@.len(),
                i < variants@.len(),
                branched(views(r@), variants@[i as int]@, views(options@), j as int) == branched(
                    start,
                    variants@[i as int]@,
                    views(options@),
                    0,
                ),
            decreases options@.len() - j,
        {
            assert(views(options@)[j as int] == options@[j as int]@);
            let mut t = variants[i].clone();
            t.append(" ");
            t.append(options[j].as_str());
            r.push(t);
            j = j + 1;
        }
        i = i + 1;
    }
    Ok(r)
}

/// Appends a dimension where it matters.
fn add_some_dimension(
    variants: Result<Vec<String>, IptablesRenderError>,
    test: bool,
    options: &Vec<String>,
) -> (r: Result<Vec<String>, IptablesRenderError>)
    ensures
        lvres(r) == with_some_dimension(lvres(variants), test, views(options@)),
{
    match variants {
        Err(e) => Err(e),
        Ok(v) => if test {
            add_dimension(v, options)
        } else {
            Ok(v)
        },
    }
}

fn flag_values(flag: &str, values: &Vec<String>) -> (r: Vec<String>)
    ensures
        views(r@) == flagged(flag@, views(values@)),
{
    let mut r: Vec<String> = Vec::new();
    let mut i: usize = 0;
    while i < values.len()
        invariant
            i <= values@.len(),
            r@.len() == i,
            forall|j: int|
                0 <= j < i ==> #[trigger] views(r@)[j] == flagged(flag@, views(values@))[j],
        decreases values@.len() - i,
    {
        let mut t = flag.to_owned();
        t.append(" ");
        t.append(values[i].as_str());
        r.push(t);
        i = i + 1;
    }
    assert(views(r@) =~= flagged(flag@, views(values@)));
    r
}

fn in_family(a: &IpAddr, family: IpFamily) -> (r: bool)
    ensures
        r == is_family(*a, family),
{
    a.is_ipv4() == (family == IpFamily::Ipv4)
}

fn flag_networks(flag: &str, values: &Vec<IpNetwork>, family: IpFamily) -> (r: Vec<String>)
    ensures
        views(r@) == flagged_networks(Seq::empty(), flag@, views(values@), family, 0),
{
    let mut r: Vec<String> = Vec::new();
    let mut i: usize = 0;
    while i < values.len()
        invariant
            i <= values@.len(),
            flagged_networks(views(r@), flag@, views(values@), family, i as int)
                == flagged_networks(Seq::empty(), flag@, views(values@), family, 0),
        decreases values@.len() - i,
    {
        assert(views(values@)[i as int] == values@[i as int]);
        if in_family(&values[i].address, family) {
            let mut t = flag.to_owned();
            t.append(" ");
            t.append(values[i].text().as_str());
            r.push(t);
        }
        i = i + 1;
    }
    r
}

fn flag_ports(flag: &str, values: &Vec<PortRange>) -> (r: Vec<String>)
    ensures
        views(r@) == flagged_ports(flag@, views(values@)),
{
    let mut r: Vec<String> = Vec::new();
    let mut i: usize = 0;
    while i < values.len()
        invariant
            i <= values@.len(),
            r@.len() == i,
            forall|j: int|
                0 <= j < i ==> #[trigger] views(r@)[j] == flagged_ports(flag@, views(values@))[j],
        decreases values@.len() - i,
    {
        let mut t = flag.to_owned();
        t.append(" ");
        t.append(iptables_port(values[i]).as_str());
        r.push(t);
        i = i + 1;
    }
    assert(views(r@) =~= flagged_ports(flag@, views(values@)));
    r
}

fn flag_bytes(flag: &str, values: &Vec<u8>) -> (r: Vec<String>)
    ensures
        views(r@) == flagged_bytes(flag@, views(values@)),
{
    let mut r: Vec<String> = Vec::new();
    let mut i: usize = 0;
    while i < values.len()
        invariant
            i <= values@.len(),
            r@.len() == i,
            forall|j: int|
                0 <= j < i ==> #[trigger] views(r@)[j] == flagged_bytes(flag@, views(values@))[j],
        decreases values@.len() - i,
    {
        let mut t = flag.to_owned();
        t.append(" ");
        t.append(decimal_text(values[i] as u64).as_str());
        r.push(t);
        i = i + 1;
    }
    assert(views(r@) =~= flagged_bytes(flag@, views(values@)));
    r
}

fn protocol_applies(p: FirewallProtocol, family: IpFamily) -> (r: bool)
    ensures
        r == protocol_fits(p, family),
{
    !(p == FirewallProtocol::Icmp && family == IpFamily::Ipv6) && !(p == FirewallProtocol::Icmpv6
        && family == IpFamily::Ipv4)
}

fn applicable_protocols(p: &Vec<FirewallProtocol>, family: IpFamily) -> (r: Vec<FirewallProtocol>)
    ensures
        r@ == fitting_protocols(Seq::empty(), views(p@), family, 0),
{
    let mut r: Vec<FirewallProtocol> = Vec::new();
    let mut i: usize = 0;
    while i < p.len()
        invariant
            i <= p@.len(),
            fitting_protocols(r@, views(p@), family, i as int) == fitting_protocols(
                Seq::empty(),
                views(p@),
                family,
                0,
            ),
        decreases p@.len() - i,
    {
        assert(views(p@)[i as int] == p@[i as int]);
        if protocol_applies(p[i], family) {
            r.push(p[i]);
        }
        i = i + 1;
    }
    r
}

fn protocol_text(p: FirewallProtocol) -> (r: &'static str)
    ensures
        r@ == protocol_name(p),
{
    match p {
        FirewallProtocol::Tcp => "tcp",
        FirewallProtocol::Udp => "udp",
        FirewallProtocol::Icmp => "icmp",
        FirewallProtocol::Icmpv6 => "ipv6-icmp",
        FirewallProtocol::Esp => "esp",
        FirewallProtocol::Ah => "ah",
        FirewallProtocol::Gre => "gre",
    }
}

fn flag_protocols(p: &Vec<FirewallProtocol>) -> (r: Vec<String>)
    ensures
        views(r@) == flagged_protocols(p@),
{
    let mut r: Vec<String> = Vec::new();
    let mut i: usize = 0;
    while i < p.len()
        invariant
            i <= p@.len(),
            r@.len() == i,
            forall|j: int| 0 <= j < i ==> #[trigger] views(r@)[j] == flagged_protocols(p@)[j],
        decreases p@.len() - i,
    {
        let mut t = "-p ".to_owned();
        t.append(protocol_text(p[i]));
        r.push(t);
        i = i + 1;
    }
    assert(views(r@) =~= flagged_protocols(p@));
    r
}

fn state_text(s: FirewallConntrackState) -> (r: &'static str)
    ensures
        r@ == state_name(s),
{
    match s {
        FirewallConntrackState::New => "NEW",
        FirewallConntrackState::Established => "ESTABLISHED",
        FirewallConntrackState::Related => "RELATED",
        FirewallConntrackState::Invalid => "INVALID",
    }
}

fn join_states(s: &Vec<FirewallConntrackState>) -> (r: String)
    ensures
        r@ == states_text(Seq::empty(), views(s@), 0),
{
    let mut r = String::new();
    let mut i: usize = 0;
    while i < s.len()
        invariant
            i <= s@.len(),
            states_text(r@, views(s@), i as int) == states_text(Seq::empty(), views(s@), 0),
        decreases s@.len() - i,
    {
        assert(views(s@)[i as int] == s@[i as int]);
        if i > 0 {
            r.append(",");
        }
        r.append(state_text(s[i]));
        i = i + 1;
    }
    r
}

fn verdict_target(
    verdict: FirewallVerdict,
    reject: Option<FirewallRejectKind>,
    family: IpFamily,
) -> (r: Option<&'static str>)
    ensures
        text_view(r) == target_of(verdict, reject, family),
{
    match (verdict, reject) {
        (FirewallVerdict::Accept, None) => Some("-j ACCEPT"),
        (FirewallVerdict::Drop, None) => Some("-j DROP"),
        (FirewallVerdict::Reject, None) => Some("-j REJECT"),
        (FirewallVerdict::Reject, Some(FirewallRejectKind::TcpReset)) => Some(
            "-j REJECT --reject-with tcp-reset",
        ),
        (FirewallVerdict::Reject, Some(FirewallRejectKind::IcmpPortUnreachable)) => if family
            == IpFamily::Ipv4 {
            Some("-j REJECT --reject-with icmp-port-unreachable")
        } else {
            None
        },
        (FirewallVerdict::Reject, Some(FirewallRejectKind::IcmpHostUnreachable)) => if family
            == IpFamily::Ipv4 {
            Some("-j REJECT --reject-with icmp-host-unreachable")
        } else {
            None
        },
        (FirewallVerdict::Reject, Some(FirewallRejectKind::Icmp6PortUnreachable)) => if family
            == IpFamily::Ipv6 {
            Some("-j REJECT --reject-with icmp6-port-unreachable")
        } else {
            None
        },
        _ => None,
    }
}

fn log_level(l: FirewallLogLevel) -> (r: &'static str)
    ensures
        r@ == level_name(l),
{
    match l {
        FirewallLogLevel::Emergency => "emerg",
        FirewallLogLevel::Alert => "alert",
        FirewallLogLevel::Critical => "crit",
        FirewallLogLevel::Error => "error",
        FirewallLogLevel::Warning => "warning",
        FirewallLogLevel::Notice => "notice",
        FirewallLogLevel::Info => "info",
        FirewallLogLevel::Debug => "debug",
    }
}

fn direction_chain(direction: FirewallDirection) -> (r: &'static str)
    ensures
        r@ == chain_of(direction),
{
    match direction {
        FirewallDirection::Input => "MBED_INPUT",
        FirewallDirection::Output => "MBED_OUTPUT",
        FirewallDirection::Forward => "MBED_FORWARD",
    }
}

/// Whether a text can stand between double quotes.
pub fn double_quotable(s: &str) -> (r: bool)
    ensures
        r == is_double_quotable(s@),
{
    let cs = chars_of(s);
    if cs.len() == 0 {
        return false;
    }
    let mut i: usize = 0;
    while i < cs.len()
        invariant
            i <= cs@.len(),
            cs@ == s@,
            0 < cs@.len(),
            forall|j: int|
                0 <= j < i ==> !is_ascii_control(#[trigger] cs@[j]) && cs@[j] != '"' && cs@[j]
                    != '\\',
        decreases cs@.len() - i,
    {
        if ascii_control(cs[i]) || cs[i] == '"' || cs[i] == '\\' {
            return false;
        }
        i = i + 1;
    }
    true
}

fn reject_applies(r: Option<FirewallRejectKind>, family: IpFamily) -> (q: bool)
    ensures
        q == reject_fits(r, family),
{
    match r {
        None => true,
        Some(FirewallRejectKind::TcpReset) => true,
        Some(FirewallRejectKind::IcmpPortUnreachable) => family == IpFamily::Ipv4,
        Some(FirewallRejectKind::IcmpHostUnreachable) => family == IpFamily::Ipv4,
        Some(FirewallRejectKind::Icmp6PortUnreachable) => family == IpFamily::Ipv6,
    }
}

fn only_protocol(p: &Vec<FirewallProtocol>, q: FirewallProtocol) -> (r: bool)
    ensures
        r == (p@ == seq![q]),
{
    if p.len() == 1 && p[0] == q {
        assert(p@ =~= seq![q]);
        true
    } else {
        assert(p@ != seq![q]) by {
            if p@ == seq![q] {
                assert(p@.len() == 1 && p@[0] == q);
            }
        }
        false
    }
}

/// The draft behind a step that succeeded, or the error.
pub open spec fn draft_result(
    r: Result<(), IptablesRenderError>,
    d: DraftView,
) -> Result<DraftView, IptablesRenderErrorView> {
    match r {
        Ok(()) => Ok(d),
        Err(e) => Err(e@),
    }
}

impl Draft {
    /// Makes room for one more rule.
    fn count_rule(&mut self) -> (r: Result<(), IptablesRenderError>)
        ensures
            draft_result(r, final(self)@) == counted(old(self)@),
    {
        if self.count >= MAX_EXPANDED_RULES {
            return Err(IptablesRenderError::Capacity);
        }
        self.count = self.count + 1;
        Ok(())
    }

    fn write(&mut self, line: &str)
        ensures
            final(self)@ == written(old(self)@, line@),
    {
        self.text.append(line);
    }

    /// Writes a line that counts as a rule.
    fn write_rule(&mut self, line: &str) -> (r: Result<(), IptablesRenderError>)
        ensures
            draft_result(r, final(self)@) == policy(Ok(old(self)@), line@),
    {
        match self.count_rule() {
            Err(e) => Err(e),
            Ok(()) => {
                self.write(line);
                Ok(())
            },
        }
    }
}

fn rule_text(chain: &str, matcher: &str, limit: &str, id: &str, target: &str) -> (r: String)
    ensures
        r@ == rule_line(chain@, matcher@, limit@, id@, target@),
{
    let mut line = "-A ".to_owned();
    line.append(chain);
    line.append(matcher);
    line.append(limit);
    line.append(" -m comment --comment mbed:");
    line.append(id);
    line.append(" ");
    line.append(target);
    line.append("\n");
    line
}

fn limit_of(l: &Option<FirewallRateLimit>) -> (r: String)
    ensures
        r@ == limit_text(*l),
{
    match l {
        Some(l) => {
            let mut t = " -m limit --limit ".to_owned();
            t.append(decimal_text(l.packets_per_second as u64).as_str());
            t.append("/second --limit-burst ");
            t.append(decimal_text(l.burst as u64).as_str());
            t
        },
        None => String::new(),
    }
}

fn render_log(draft: &mut Draft, rule: &FirewallFilterRule, matcher: &str) -> (r: Result<
    (),
    IptablesRenderError,
>)
    ensures
        draft_result(r, final(draft)@) == logged(old(draft)@, rule@, matcher@),
{
    match &rule.log {
        None => Ok(()),
        Some(log) => {
            if byte_length(log.prefix.as_str()) > 29 {
                return Err(
                    IptablesRenderError::UnsupportedField("iptables LOG prefix exceeds 29 bytes"),
                );
            }
            match draft.count_rule() {
                Err(e) => {
                    return Err(e);
                },
                Ok(()) => {},
            }
            if !double_quotable(log.prefix.as_str()) {
                return Err(IptablesRenderError::UnsafeValue);
            }
            let mut line = "-A ".to_owned();
            line.append(direction_chain(rule.direction));
            line.append(matcher);
            line.append(" -m limit --limit 1/second --limit-burst 5 -m comment --comment mbed:");
            line.append(rule.id.as_str());
            line.append(" -j LOG --log-prefix \"");
            line.append(log.prefix.as_str());
            line.append("\" --log-level ");
            line.append(log_level(log.level));
            line.append("\n");
            draft.write(line.as_str());
            Ok(())
        },
    }
}

fn render_alternative(
    draft: &mut Draft,
    rule: &FirewallFilterRule,
    matcher: &str,
    family: IpFamily,
) -> (r: Result<(), IptablesRenderError>)
    ensures
        draft_result(r, final(draft)@) == matched(old(draft)@, rule@, matcher@, family),
{
    match render_log(draft, rule, matcher) {
        Err(e) => {
            return Err(e);
        },
        Ok(()) => {},
    }
    match draft.count_rule() {
        Err(e) => {
            return Err(e);
        },
        Ok(()) => {},
    }
    match verdict_target(rule.verdict, rule.reject_with, family) {
        None => Err(
            IptablesRenderError::UnsupportedField(
                "reject kind does not match iptables address family",
            ),
        ),
        Some(target) => {
            draft.write(
                rule_text(
                    direction_chain(rule.direction),
                    matcher,
                    limit_of(&rule.rate_limit).as_str(),
                    rule.id.as_str(),
                    target,
                ).as_str(),
            );
            Ok(())
        },
    }
}

fn render_table_header(draft: &mut Draft, table: &str, state: IptablesFamilyState)
    ensures
        final(draft)@ == opened(old(draft)@, table@, state),
{
    draft.text.append("*");
    draft.text.append(table);
    draft.text.append("\n");
    let owned = chains();
    assert(owned@.len() == owned_chains().len());
    let ghost start = draft.text@;
    let ghost count = draft.count;
    let mut k: usize = 0;
    while k < owned.len()
        invariant
            k <= owned@.len(),
            owned@.len() == 6,
            views(owned@) == owned_chains(),
            draft.count == count,
            count == old(draft).count,
            start == old(draft).text@ + "*"@ + table@ + "\n"@,
            headed(draft.text@, table@, state, k as int) == headed(start, table@, state, 0),
        decreases owned@.len() - k,
    {
        assert(owned_chains()[k as int] == owned@[k as int]@);
        if same(owned[k].table, table) {
            let mut line = ":".to_owned();
            line.append(owned[k].managed);
            line.append(" - [0:0]\n");
            draft.text.append(line.as_str());
            if state == IptablesFamilyState::Absent {
                let mut hook = "-A ".to_owned();
                hook.append(owned[k].builtin);
                hook.append(" -m comment --comment ");
                hook.append(owned[k].marker);
                hook.append(" -j ");
                hook.append(owned[k].managed);
                hook.append("\n");
                draft.text.append(hook.as_str());
            }
        }
        k = k + 1;
    }
}

pub fn translation_endpoint(address: IpAddr, port: Option<PortRange>) -> (r: String)
    ensures
        r@ == endpoint(address, port),
{
    match port {
        None => address.text(),
        Some(p) => {
            if address.is_ipv4() {
                let mut t = address.text();
                t.append(":");
                t.append(iptables_port(p).as_str());
                t
            } else {
                let mut t = "[".to_owned();
                t.append(address.text().as_str());
                t.append("]:");
                t.append(iptables_port(p).as_str());
                t
            }
        },
    }
}

fn nat_target(rule: &FirewallNatRule, family: IpFamily) -> (r: Result<
    Option<String>,
    IptablesRenderError,
>)
    ensures
        match r {
            Ok(t) => translation(rule@, family) == Ok::<
                Option<Seq<char>>,
                IptablesRenderErrorView,
            >(opt(t)),
            Err(e) => translation(rule@, family) == Err::<
                Option<Seq<char>>,
                IptablesRenderErrorView,
            >(e@),
        },
{
    match &rule.translation_address {
        Some(a) => {
            if !in_family(a, family) {
                return Ok(None);
            }
        },
        None => {},
    }
    match rule.kind {
        FirewallNatKind::Masquerade => Ok(Some("-j MASQUERADE".to_owned())),
        FirewallNatKind::Redirect => match rule.translation_port {
            None => Err(IptablesRenderError::InvalidObject),
            Some(p) => {
                let mut t = "-j REDIRECT --to-ports ".to_owned();
                t.append(iptables_port(p).as_str());
                Ok(Some(t))
            },
        },
        FirewallNatKind::DestinationNat => match rule.translation_address {
            None => Err(IptablesRenderError::InvalidObject),
            Some(a) => {
                let mut t = "-j DNAT --to-destination ".to_owned();
                t.append(translation_endpoint(a, rule.translation_port).as_str());
                Ok(Some(t))
            },
        },
        FirewallNatKind::SourceNat => match rule.translation_address {
            None => Err(IptablesRenderError::InvalidObject),
            Some(a) => {
                let mut t = "-j SNAT --to-source ".to_owned();
                t.append(translation_endpoint(a, rule.translation_port).as_str());
                Ok(Some(t))
            },
        },
    }
}

fn render_zone_lines(draft: &mut Draft, zones: &Vec<FirewallZone>, mtu: bool) -> (r: Result<
    (),
    IptablesRenderError,
>)
    ensures
        draft_result(r, final(draft)@) == all_zone_lines(old(draft)@, views(zones@), mtu, 0),
{
    let ghost start = draft@;
    let mut i: usize = 0;
    while i < zones.len()
        invariant
            i <= zones@.len(),
            start == old(draft)@,
            all_zone_lines(draft@, views(zones@), mtu, i as int) == all_zone_lines(
                start,
                views(zones@),
                mtu,
                0,
            ),
        decreases zones@.len() - i,
    {
        let zone = &zones[i];
        assert(views(zones@)[i as int] == zone@);
        let wanted = if mtu {
            zone.mtu_fix
        } else {
            zone.masquerade
        };
        if zone.enabled && wanted {
            let ghost before = draft@;
            let mut j: usize = 0;
            while j < zone.networks.len()
                invariant
                    j <= zone.networks@.len(),
                    i < zones@.len(),
                    start == old(draft)@,
                    views(zones@)[i as int] == zone@,
                    zone@.enabled,
                    (if mtu {
                        zone@.mtu_fix
                    } else {
                        zone@.masquerade
                    }),
                    all_zone_lines(before, views(zones@), mtu, i as int) == all_zone_lines(
                        start,
                        views(zones@),
                        mtu,
                        0,
                    ),
                    zone_lines(draft@, zone@, mtu, j as int) == zone_lines(before, zone@, mtu, 0),
                decreases zone.networks@.len() - j,
            {
                assert(zone@.networks[j as int] == zone.networks@[j as int]@);
                let mut line = if mtu {
                    "-A MBED_MANGLE_FORWARD -o ".to_owned()
                } else {
                    "-A MBED_POSTROUTING -o ".to_owned()
                };
                line.append(zone.networks[j].as_str());
                if mtu {
                    line.append(" -p tcp --tcp-flags SYN,RST SYN -m comment --comment mbed:mtu:");
                    line.append(zone.id.as_str());
                    line.append(" -j TCPMSS --clamp-mss-to-pmtu\n");
                } else {
                    line.append(" -m comment --comment mbed:masq:");
                    line.append(zone.id.as_str());
                    line.append(" -j MASQUERADE\n");
                }
                match draft.write_rule(line.as_str()) {
                    Err(e) => {
                        return Err(e);
                    },
                    Ok(()) => {},
                }
                j = j + 1;
            }
        }
        i = i + 1;
    }
    Ok(())
}

fn policy_text(chain: &str, flag: &str, interface: &str, id: &str, verdict: FirewallVerdict) -> (r:
    String)
    ensures
        r@ == policy_line(chain@, flag@, interface@, id@, verdict),
{
    let mut line = "-A ".to_owned();
    line.append(chain);
    line.append(" ");
    line.append(flag);
    line.append(" ");
    line.append(interface);
    line.append(" -m comment --comment mbed:zone:");
    line.append(id);
    line.append(" ");
    let target = match verdict {
        FirewallVerdict::Accept => "-j ACCEPT",
        FirewallVerdict::Drop => "-j DROP",
        FirewallVerdict::Reject => "-j REJECT",
    };
    line.append(target);
    line.append("\n");
    line
}

fn render_zone_policies(draft: &mut Draft, zones: &Vec<FirewallZone>) -> (r: Result<
    (),
    IptablesRenderError,
>)
    ensures
        draft_result(r, final(draft)@) == policies(old(draft)@, views(zones@), 0),
{
    let ghost start = draft@;
    let mut i: usize = 0;
    while i < zones.len()
        invariant
            i <= zones@.len(),
            start == old(draft)@,
            policies(draft@, views(zones@), i as int) == policies(start, views(zones@), 0),
        decreases zones@.len() - i,
    {
        let zone = &zones[i];
        assert(views(zones@)[i as int] == zone@);
        if zone.enabled {
            let ghost before = draft@;
            let mut j: usize = 0;
            while j < zone.networks.len()
                invariant
                    j <= zone.networks@.len(),
                    i < zones@.len(),
                    start == old(draft)@,
                    views(zones@)[i as int] == zone@,
                    zone@.enabled,
                    policies(before, views(zones@), i as int) == policies(
                        start,
                        views(zones@),
                        0,
                    ),
                    zone_policies(draft@, zone@, j as int) == zone_policies(before, zone@, 0),
                decreases zone.networks@.len() - j,
            {
                assert(zone@.networks[j as int] == zone.networks@[j as int]@);
                let interface = zone.networks[j].as_str();
                let id = zone.id.as_str();
                match draft.write_rule(
                    policy_text("MBED_INPUT", "-i", interface, id, zone.input).as_str(),
                ) {
                    Err(e) => {
                        return Err(e);
                    },
                    Ok(()) => {},
                }
                match draft.write_rule(
                    policy_text("MBED_OUTPUT", "-o", interface, id, zone.output).as_str(),
                ) {
                    Err(e) => {
                        return Err(e);
                    },
                    Ok(()) => {},
                }
                match draft.write_rule(
                    policy_text("MBED_FORWARD", "-i", interface, id, zone.forward).as_str(),
                ) {
                    Err(e) => {
                        return Err(e);
                    },
                    Ok(()) => {},
                }
                j = j + 1;
            }
        }
        i = i + 1;
    }
    Ok(())
}

impl RenderContext {
    /// Sorts the objects of a projection by what they are.
    fn new(objects: &Vec<FirewallObject>) -> (r: Option<RenderContext>)
        ensures
            opt(r) == context_of(empty_context(), views(objects@), 0),
    {
        let mut c = RenderContext {
            zones: Vec::new(),
            forwardings: Vec::new(),
            filter_rules: Vec::new(),
            nat_rules: Vec::new(),
            sets: Vec::new(),
        };
        assert(c@ =~= empty_context());
        let mut i: usize = 0;
        while i < objects.len()
            invariant
                i <= objects@.len(),
                context_of(c@, views(objects@), i as int) == context_of(
                    empty_context(),
                    views(objects@),
                    0,
                ),
            decreases objects@.len() - i,
        {
            assert(views(objects@)[i as int] == objects@[i as int]@);
            match &objects[i] {
                FirewallObject::Zone(value) => c.zones.push(value.twin()),
                FirewallObject::Forwarding(value) => c.forwardings.push(value.twin()),
                FirewallObject::FilterRule(value) => insert_filter_rule(
                    &mut c.filter_rules,
                    value,
                ),
                FirewallObject::NatRule(value) => insert_nat_rule(&mut c.nat_rules, value),
                FirewallObject::AddressSet(value) => match expanded_set(value) {
                    Some(s) => c.sets.push(s),
                    None => {
                        return None;
                    },
                },
            }
            i = i + 1;
        }
        Some(c)
    }

    fn set(&self, id: &str) -> (r: Option<&ExpandedSet>)
        ensures
            match r {
                Some(s) => set_from(self@.sets, id@, 0) == Some(s@),
                None => set_from(self@.sets, id@, 0) is None,
            },
    {
        let mut i: usize = 0;
        while i < self.sets.len()
            invariant
                i <= self.sets@.len(),
                set_from(self@.sets, id@, i as int) == set_from(self@.sets, id@, 0),
            decreases self.sets@.len() - i,
        {
            assert(self@.sets[i as int] == self.sets@[i as int]@);
            if same(self.sets[i].id.as_str(), id) {
                return Some(&self.sets[i]);
            }
            i = i + 1;
        }
        None
    }

    fn names_port_set(&self, ids: &Vec<String>) -> (r: bool)
        ensures
            r == has_port_set(self@.sets, views(ids@)),
    {
        let mut i: usize = 0;
        while i < ids.len()
            invariant
                i <= ids@.len(),
                forall|j: int| 0 <= j < i ==> !is_port_set(self@.sets, #[trigger] views(ids@)[j]),
            decreases ids@.len() - i,
        {
            assert(views(ids@)[i as int] == ids@[i as int]@);
            match self.set(ids[i].as_str()) {
                Some(s) => {
                    if s.kind == SetKind::Port {
                        assert(is_port_set(self@.sets, views(ids@)[i as int]));
                        return true;
                    }
                },
                None => {},
            }
            i = i + 1;
        }
        false
    }

    /// Whether ports are matched only together with protocols that have them.
    fn validate_transport_ports(&self, value: &FirewallMatch) -> (r: bool)
        ensures
            r == !(needs_transport(self@.sets, value@) && !is_transport(value@.protocols)),
    {
        let has_ports = value.source_ports.len() > 0 || value.destination_ports.len() > 0
            || self.names_port_set(&value.source_sets) || self.names_port_set(
            &value.destination_sets,
        );
        if !has_ports {
            return true;
        }
        let mut i: usize = 0;
        while i < value.protocols.len()
            invariant
                i <= value.protocols@.len(),
                has_ports == needs_transport(self@.sets, value@),
                has_ports,
                forall|j: int|
                    0 <= j < i ==> #[trigger] value@.protocols[j] == FirewallProtocol::Tcp
                        || value@.protocols[j] == FirewallProtocol::Udp,
            decreases value.protocols@.len() - i,
        {
            assert(value@.protocols[i as int] == value.protocols@[i as int]);
            if value.protocols[i] != FirewallProtocol::Tcp && value.protocols[i]
                != FirewallProtocol::Udp {
                return false;
            }
            i = i + 1;
        }
        value.protocols.len() > 0
    }

    fn dimension_taken(&self, ids: &Vec<String>, i: usize) -> (r: bool)
        requires
            i < ids@.len(),
        ensures
            r == dimension_used(self@.sets, views(ids@), i as int),
    {
        let ghost all = views(ids@);
        let mut j: usize = 0;
        while j < i
            invariant
                j <= i < ids@.len(),
                all == views(ids@),
                forall|k: int|
                    0 <= k < j ==> !(set_from(self@.sets, #[trigger] all[k], 0) matches Some(a)
                        && set_from(self@.sets, all[i as int], 0) matches Some(b) && dimension_of(
                        a.kind,
                    ) == dimension_of(b.kind)),
            decreases i - j,
        {
            assert(all[j as int] == ids@[j as int]@);
            assert(all[i as int] == ids@[i as int]@);
            match (self.set(ids[j].as_str()), self.set(ids[i].as_str())) {
                (Some(a), Some(b)) => {
                    if same_dimension(a.kind, b.kind) {
                        return true;
                    }
                },
                _ => {},
            }
            j = j + 1;
        }
        false
    }

    fn add_set_dimensions(
        &self,
        variants: Vec<String>,
        ids: &Vec<String>,
        family: IpFamily,
        source: bool,
    ) -> (r: Result<Vec<String>, IptablesRenderError>)
        ensures
            lvres(r) == with_sets(
                views(variants@),
                self@.sets,
                views(ids@),
                family,
                source,
                0,
            ),
    {
        let ghost start = views(variants@);
        let mut v = variants;
        let mut i: usize = 0;
        while i < ids.len()
            invariant
                i <= ids@.len(),
                start == views(variants@),
                with_sets(
                    views(v@),
                    self@.sets,
                    views(ids@),
                    family,
                    source,
                    i as int,
                ) == with_sets(start, self@.sets, views(ids@), family, source, 0),
            decreases ids@.len() - i,
        {
            assert(views(ids@)[i as int] == ids@[i as int]@);
            let set = match self.set(ids[i].as_str()) {
                Some(s) => s,
                None => {
                    return Err(IptablesRenderError::MissingReference);
                },
            };
            if !set.enabled {
                return Err(IptablesRenderError::MissingReference);
            }
            if self.dimension_taken(ids, i) {
                return Err(
                    IptablesRenderError::UnsupportedField(
                        "multiple same-dimension sets require explicit rule expansion",
                    ),
                );
            }
            let network_flag = if source {
                "-s"
            } else {
                "-d"
            };
            let options = match set.kind {
                SetKind::Ipv4Network => {
                    if family != IpFamily::Ipv4 {
                        return Ok(Vec::new());
                    }
                    flag_values(network_flag, &set.entries)
                },
                SetKind::Ipv6Network => {
                    if family != IpFamily::Ipv6 {
                        return Ok(Vec::new());
                    }
                    flag_values(network_flag, &set.entries)
                },
                SetKind::Mac => {
                    if !source {
                        return Err(
                            IptablesRenderError::UnsupportedField(
                                "iptables destination MAC matching",
                            ),
                        );
                    }
                    flag_values("-m mac --mac-source", &set.entries)
                },
                SetKind::Port => flag_values(
                    if source {
                        "--sport"
                    } else {
                        "--dport"
                    },
                    &set.entries,
                ),
            };
            v = match add_dimension(v, &options) {
                Ok(next) => next,
                Err(e) => {
                    return Err(e);
                },
            };
            i = i + 1;
        }
        Ok(v)
    }

    fn place(
        &self,
        value: &FirewallMatch,
        direction: FirewallDirection,
        sources: &Vec<String>,
        destinations: &Vec<String>,
    ) -> (r: Result<Vec<String>, IptablesRenderError>)
        ensures
            lvres(r) == placed(value@, direction, views(sources@), views(destinations@)),
    {
        let mut first: Vec<String> = Vec::new();
        first.push(String::new());
        assert(views(first@) =~= seq![Seq::<char>::empty()]);
        let source_flag = if direction == FirewallDirection::Output {
            "-o"
        } else {
            "-i"
        };
        let zoned = match add_some_dimension(
            Ok(first),
            sources.len() > 0,
            &flag_values(source_flag, sources),
        ) {
            Ok(v) => v,
            Err(e) => {
                return Err(e);
            },
        };
        if destinations.len() > 0 && direction != FirewallDirection::Forward {
            return Err(
                IptablesRenderError::UnsupportedField("destination zone for non-forward direction"),
            );
        }
        let both = add_some_dimension(
            Ok(zoned),
            destinations.len() > 0,
            &flag_values("-o", destinations),
        );
        let input = add_some_dimension(
            both,
            value.input_interfaces.len() > 0,
            &flag_values("-i", &value.input_interfaces),
        );
        add_some_dimension(
            input,
            value.output_interfaces.len() > 0,
            &flag_values("-o", &value.output_interfaces),
        )
    }

    fn transport(
        &self,
        start: Vec<String>,
        value: &FirewallMatch,
        family: IpFamily,
    ) -> (r: Result<Vec<String>, IptablesRenderError>)
        ensures
            lvres(r) == transported(Ok(views(start@)), value@, family),
    {
        let fitting = applicable_protocols(&value.protocols, family);
        if value.icmp_types.len() > 0 && fitting.len() > 0 && !only_protocol(
            &fitting,
            if family == IpFamily::Ipv4 {
                FirewallProtocol::Icmp
            } else {
                FirewallProtocol::Icmpv6
            },
        ) {
            return Err(
                IptablesRenderError::UnsupportedField("ICMP types combined with another protocol"),
            );
        }
        let protocols = add_some_dimension(
            Ok(start),
            value.protocols.len() > 0,
            &flag_protocols(&fitting),
        );
        let source = add_some_dimension(
            protocols,
            value.source_ports.len() > 0,
            &flag_ports("--sport", &value.source_ports),
        );
        let destination = add_some_dimension(
            source,
            value.destination_ports.len() > 0,
            &flag_ports("--dport", &value.destination_ports),
        );
        let mut state = "-m conntrack --ctstate ".to_owned();
        state.append(join_states(&value.conntrack_states).as_str());
        let ghost state_view = state@;
        let mut state_options: Vec<String> = Vec::new();
        state_options.push(state);
        assert(views(state_options@) =~= seq![state_view]);
        let states = add_some_dimension(
            destination,
            value.conntrack_states.len() > 0,
            &state_options,
        );
        let flag = if family == IpFamily::Ipv4 {
            "--icmp-type"
        } else {
            "--icmpv6-type"
        };
        add_some_dimension(
            states,
            value.icmp_types.len() > 0,
            &flag_bytes(flag, &value.icmp_types),
        )
    }

    fn expand_match(
        &self,
        value: &FirewallMatch,
        direction: FirewallDirection,
        family: IpFamily,
    ) -> (r: Result<Vec<String>, IptablesRenderError>)
        ensures
            lvres(r) == alternatives(self@, value@, direction, family),
    {
        let applies = match value.family {
            FirewallFamily::Any => true,
            FirewallFamily::Ipv4 => family == IpFamily::Ipv4,
            FirewallFamily::Ipv6 => family == IpFamily::Ipv6,
        };
        if !applies {
            return Ok(Vec::new());
        }
        let misplaced = match direction {
            FirewallDirection::Input => value.destination_zones.len() > 0
                || value.output_interfaces.len() > 0,
            FirewallDirection::Output => value.source_zones.len() > 0
                || value.input_interfaces.len() > 0,
            FirewallDirection::Forward => false,
        };
        if misplaced {
            return Err(
                IptablesRenderError::UnsupportedField("zone/interface does not exist at this hook"),
            );
        }
        if !self.validate_transport_ports(value) {
            return Err(IptablesRenderError::UnsupportedField("ports require only TCP/UDP protocols"));
        }
        let (sources, destinations) = match (
            zone_interfaces(&self.zones, &value.source_zones),
            zone_interfaces(&self.zones, &value.destination_zones),
        ) {
            (Some(s), Some(d)) => (s, d),
            _ => {
                return Err(IptablesRenderError::MissingReference);
            },
        };
        let interfaces = self.place(value, direction, &sources, &destinations);
        let source = add_some_dimension(
            interfaces,
            value.source_networks.len() > 0,
            &flag_networks("-s", &value.source_networks, family),
        );
        let destination = add_some_dimension(
            source,
            value.destination_networks.len() > 0,
            &flag_networks("-d", &value.destination_networks, family),
        );
        let addressed = match add_some_dimension(
            destination,
            value.source_macs.len() > 0,
            &flag_values("-m mac --mac-source", &value.source_macs),
        ) {
            Ok(v) => v,
            Err(e) => {
                return Err(e);
            },
        };
        let carried = match self.transport(addressed, value, family) {
            Ok(v) => v,
            Err(e) => {
                return Err(e);
            },
        };
        let with_sources = match self.add_set_dimensions(
            carried,
            &value.source_sets,
            family,
            true,
        ) {
            Ok(v) => v,
            Err(e) => {
                return Err(e);
            },
        };
        self.add_set_dimensions(with_sources, &value.destination_sets, family, false)
    }

    fn render_filter_rule(
        &self,
        draft: &mut Draft,
        rule: &FirewallFilterRule,
        family: IpFamily,
    ) -> (r: Result<(), IptablesRenderError>)
        ensures
            draft_result(r, final(draft)@) == filtered(old(draft)@, self@, rule@, family),
    {
        if !rule.enabled {
            return Ok(());
        }
        let reset = match rule.reject_with {
            Some(FirewallRejectKind::TcpReset) => true,
            _ => false,
        };
        assert(views(rule.matches.protocols@) =~= rule.matches.protocols@);
        if reset && !only_protocol(&rule.matches.protocols, FirewallProtocol::Tcp) {
            return Err(
                IptablesRenderError::UnsupportedField("TCP reset reject requires exactly TCP"),
            );
        }
        if !reject_applies(rule.reject_with, family) {
            return Ok(());
        }
        let matchers = match self.expand_match(&rule.matches, rule.direction, family) {
            Ok(m) => m,
            Err(e) => {
                return Err(e);
            },
        };
        if rule.rate_limit.is_some() && matchers.len() > 1 {
            return Err(
                IptablesRenderError::UnsupportedField(
                    "rate limit across expanded iptables alternatives",
                ),
            );
        }
        let ghost start = draft@;
        let mut i: usize = 0;
        while i < matchers.len()
            invariant
                i <= matchers@.len(),
                start == old(draft)@,
                filtered(start, self@, rule@, family) == all_matched(
                    start,
                    rule@,
                    views(matchers@),
                    family,
                    0,
                ),
                all_matched(draft@, rule@, views(matchers@), family, i as int) == all_matched(
                    start,
                    rule@,
                    views(matchers@),
                    family,
                    0,
                ),
            decreases matchers@.len() - i,
        {
            assert(views(matchers@)[i as int] == matchers@[i as int]@);
            match render_alternative(draft, rule, matchers[i].as_str(), family) {
                Ok(()) => {},
                Err(e) => {
                    return Err(e);
                },
            }
            i = i + 1;
        }
        Ok(())
    }

    fn render_forwardings(&self, draft: &mut Draft) -> (r: Result<(), IptablesRenderError>)
        ensures
            draft_result(r, final(draft)@) == forwarded(old(draft)@, self@, 0),
    {
        let ghost start = draft@;
        let mut i: usize = 0;
        while i < self.forwardings.len()
            invariant
                i <= self.forwardings@.len(),
                start == old(draft)@,
                forwarded(draft@, self@, i as int) == forwarded(start, self@, 0),
            decreases self.forwardings@.len() - i,
        {
            let f = &self.forwardings[i];
            assert(self@.forwardings[i as int] == f@);
            if f.enabled {
                match (find_zone(&self.zones, f.source_zone.as_str()), find_zone(&self.zones, f.destination_zone.as_str())) {
                    (Some(s), Some(t)) => {
                        match render_forwarding(
                            draft,
                            &s.networks,
                            &t.networks,
                            f.id.as_str(),
                        ) {
                            Ok(()) => {},
                            Err(e) => {
                                return Err(e);
                            },
                        }
                    },
                    _ => {
                        return Err(IptablesRenderError::MissingReference);
                    },
                }
            }
            i = i + 1;
        }
        Ok(())
    }

    fn render_nat_rules(&self, draft: &mut Draft, family: IpFamily) -> (r: Result<
        (),
        IptablesRenderError,
    >)
        ensures
            draft_result(r, final(draft)@) == translated(old(draft)@, self@, family, 0),
    {
        let ghost start = draft@;
        let mut i: usize = 0;
        while i < self.nat_rules.len()
            invariant
                i <= self.nat_rules@.len(),
                start == old(draft)@,
                translated(draft@, self@, family, i as int) == translated(start, self@, family, 0),
            decreases self.nat_rules@.len() - i,
        {
            let rule = &self.nat_rules[i];
            assert(self@.nat_rules[i as int] == rule@);
            if rule.enabled {
                let prerouting = rule.kind == FirewallNatKind::DestinationNat || rule.kind
                    == FirewallNatKind::Redirect;
                if prerouting && (rule.matches.destination_zones.len() > 0
                    || rule.matches.output_interfaces.len() > 0) {
                    return Err(
                        IptablesRenderError::UnsupportedField(
                            "DNAT destination zone/output interface in prerouting",
                        ),
                    );
                }
                let direction = if prerouting {
                    FirewallDirection::Input
                } else {
                    FirewallDirection::Forward
                };
                let matchers = match self.expand_match(&rule.matches, direction, family) {
                    Ok(m) => m,
                    Err(e) => {
                        return Err(e);
                    },
                };
                match render_translations(draft, rule, &matchers, family) {
                    Ok(()) => {},
                    Err(e) => {
                        return Err(e);
                    },
                }
            }
            i = i + 1;
        }
        Ok(())
    }

    fn render_filter_rules(&self, draft: &mut Draft, family: IpFamily) -> (r: Result<
        (),
        IptablesRenderError,
    >)
        ensures
            draft_result(r, final(draft)@) == all_filtered(old(draft)@, self@, family, 0),
    {
        let ghost start = draft@;
        let mut i: usize = 0;
        while i < self.filter_rules.len()
            invariant
                i <= self.filter_rules@.len(),
                start == old(draft)@,
                all_filtered(draft@, self@, family, i as int) == all_filtered(
                    start,
                    self@,
                    family,
                    0,
                ),
            decreases self.filter_rules@.len() - i,
        {
            assert(self@.filter_rules[i as int] == self.filter_rules@[i as int]@);
            match self.render_filter_rule(draft, &self.filter_rules[i], family) {
                Ok(()) => {},
                Err(e) => {
                    return Err(e);
                },
            }
            i = i + 1;
        }
        Ok(())
    }

    fn render_family(&self, family: IpFamily, state: IptablesFamilyState) -> (r: Result<
        String,
        IptablesRenderError,
    >)
        ensures
            vres(r) == family_restore(self@, family, state),
    {
        reveal(family_restore);
        let mut draft = Draft { text: String::new(), count: 0 };
        render_table_header(&mut draft, "filter", state);
        match self.render_filter_rules(&mut draft, family) {
            Ok(()) => {},
            Err(e) => {
                return Err(e);
            },
        }
        match self.render_forwardings(&mut draft) {
            Ok(()) => {},
            Err(e) => {
                return Err(e);
            },
        }
        match render_zone_policies(&mut draft, &self.zones) {
            Ok(()) => {},
            Err(e) => {
                return Err(e);
            },
        }
        draft.write("COMMIT\n");
        render_table_header(&mut draft, "mangle", state);
        match render_zone_lines(&mut draft, &self.zones, true) {
            Ok(()) => {},
            Err(e) => {
                return Err(e);
            },
        }
        draft.write("COMMIT\n");
        render_table_header(&mut draft, "nat", state);
        match self.render_nat_rules(&mut draft, family) {
            Ok(()) => {},
            Err(e) => {
                return Err(e);
            },
        }
        match render_zone_lines(&mut draft, &self.zones, false) {
            Ok(()) => {},
            Err(e) => {
                return Err(e);
            },
        }
        draft.write("COMMIT\n");
        let Draft { text, count: _ } = draft;
        if byte_length(text.as_str()) > MAX_RESTORE_BYTES {
            return Err(IptablesRenderError::Capacity);
        }
        Ok(text)
    }
}

fn same_dimension(a: SetKind, b: SetKind) -> (r: bool)
    ensures
        r == (dimension_of(a) == dimension_of(b)),
{
    match (a, b) {
        (SetKind::Mac, SetKind::Mac) => true,
        (SetKind::Port, SetKind::Port) => true,
        (SetKind::Mac, _) => false,
        (SetKind::Port, _) => false,
        (_, SetKind::Mac) => false,
        (_, SetKind::Port) => false,
        _ => true,
    }
}

fn render_forwarding(
    draft: &mut Draft,
    inputs: &Vec<String>,
    outputs: &Vec<String>,
    id: &str,
) -> (r: Result<(), IptablesRenderError>)
    ensures
        draft_result(r, final(draft)@) == forwarded_from(
            old(draft)@,
            views(inputs@),
            views(outputs@),
            id@,
            0,
        ),
{
    let ghost start = draft@;
    let mut i: usize = 0;
    while i < inputs.len()
        invariant
            i <= inputs@.len(),
            start == old(draft)@,
            forwarded_from(draft@, views(inputs@), views(outputs@), id@, i as int)
                == forwarded_from(start, views(inputs@), views(outputs@), id@, 0),
        decreases inputs@.len() - i,
    {
        assert(views(inputs@)[i as int] == inputs@[i as int]@);
        let ghost before = draft@;
        let mut j: usize = 0;
        while j < outputs.len()
            invariant
                j <= outputs@.len(),
                i < inputs@.len(),
                start == old(draft)@,
                views(inputs@)[i as int] == inputs@[i as int]@,
                forwarded_from(before, views(inputs@), views(outputs@), id@, i as int)
                    == forwarded_from(start, views(inputs@), views(outputs@), id@, 0),
                forwarded_to(draft@, inputs@[i as int]@, views(outputs@), id@, j as int)
                    == forwarded_to(before, inputs@[i as int]@, views(outputs@), id@, 0),
            decreases outputs@.len() - j,
        {
            assert(views(outputs@)[j as int] == outputs@[j as int]@);
            let mut line = "-A MBED_FORWARD -i ".to_owned();
            line.append(inputs[i].as_str());
            line.append(" -o ");
            line.append(outputs[j].as_str());
            line.append(" -m comment --comment mbed:");
            line.append(id);
            line.append(" -j ACCEPT\n");
            match draft.write_rule(line.as_str()) {
                Ok(()) => {},
                Err(e) => {
                    return Err(e);
                },
            }
            j = j + 1;
        }
        i = i + 1;
    }
    Ok(())
}

fn render_translations(
    draft: &mut Draft,
    rule: &FirewallNatRule,
    matchers: &Vec<String>,
    family: IpFamily,
) -> (r: Result<(), IptablesRenderError>)
    ensures
        draft_result(r, final(draft)@) == all_translated(
            old(draft)@,
            rule@,
            views(matchers@),
            family,
            0,
        ),
{
    let ghost start = draft@;
    let chain = match rule.kind {
        FirewallNatKind::DestinationNat => "MBED_PREROUTING",
        FirewallNatKind::Redirect => "MBED_PREROUTING",
        _ => "MBED_POSTROUTING",
    };
    let mut i: usize = 0;
    while i < matchers.len()
        invariant
            i <= matchers@.len(),
            start == old(draft)@,
            chain@ == nat_chain(rule@.kind),
            all_translated(draft@, rule@, views(matchers@), family, i as int) == all_translated(
                start,
                rule@,
                views(matchers@),
                family,
                0,
            ),
        decreases matchers@.len() - i,
    {
        assert(views(matchers@)[i as int] == matchers@[i as int]@);
        match nat_target(rule, family) {
            Err(e) => {
                return Err(e);
            },
            Ok(None) => {},
            Ok(Some(target)) => {
                let empty = String::new();
                let line = rule_text(
                    chain,
                    matchers[i].as_str(),
                    empty.as_str(),
                    rule.id.as_str(),
                    target.as_str(),
                );
                match draft.write_rule(line.as_str()) {
                    Ok(()) => {},
                    Err(e) => {
                        return Err(e);
                    },
                }
            },
        }
        i = i + 1;
    }
    Ok(())
}

/// Renders the projected state into no-flush restore artifacts for both families.
///
/// Only objects that the agent owns take part. Address sets become bounded sets of rules.
pub fn render_iptables_firewall_stage(
    inventory: &FirewallInventory,
    valid: &[bool],
    plan: &FirewallMutationPlan,
    ipv4_state: IptablesFamilyState,
    ipv6_state: IptablesFamilyState,
) -> (r: Result<IptablesFirewallStage, IptablesRenderError>)
    ensures
        vres(r) == iptables_stage(
            inventory@.objects,
            valid@,
            plan@.changes,
            ipv4_state,
            ipv6_state,
        ),
{
    let owned = match project_agent_objects(inventory, valid, plan) {
        Ok(o) => o,
        Err(e) => {
            return Err(map_projection_error(e));
        },
    };
    let context = match RenderContext::new(&owned) {
        Some(c) => c,
        None => {
            return Err(IptablesRenderError::InvalidObject);
        },
    };
    let ipv4_restore = match context.render_family(IpFamily::Ipv4, ipv4_state) {
        Ok(t) => t,
        Err(e) => {
            return Err(e);
        },
    };
    let ipv6_restore = match context.render_family(IpFamily::Ipv6, ipv6_state) {
        Ok(t) => t,
        Err(e) => {
            return Err(e);
        },
    };
    let mut validations: Vec<IptablesOperation> = Vec::new();
    validations.push(IptablesOperation::ValidateIpv4);
    validations.push(IptablesOperation::ValidateIpv6);
    let mut activations: Vec<IptablesOperation> = Vec::new();
    activations.push(IptablesOperation::LoadIpv4);
    activations.push(IptablesOperation::LoadIpv6);
    assert(validations@ =~= seq![IptablesOperation::ValidateIpv4, IptablesOperation::ValidateIpv6]);
    assert(activations@ =~= seq![IptablesOperation::LoadIpv4, IptablesOperation::LoadIpv6]);
    Ok(
        IptablesFirewallStage {
            ipv4_restore,
            ipv6_restore,
            validations,
            activations,
            coexistence: IptablesCoexistence::AppendedTerminal,
            rollback_required: true,
        },
    )
}

} // verus!
