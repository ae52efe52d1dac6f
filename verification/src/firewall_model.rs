//! Firewall objects and plans.

use vstd::prelude::*;

use crate::change::{ObjectChecks, ObjectChecksView, ObjectDiff, ObjectDiffView, ObjectOwnership, RiskLevel};
use crate::items::{copy_list, copy_opt, same_list, same_opt, Item};
use crate::net::{IpAddr, IpNetwork};
use crate::text::same;
use crate::views::{opt, views};

verus! {

/// What happens to a packet.
#[derive(Debug, Clone, Copy, PartialEq, Eq, Structural)]
pub enum FirewallVerdict {
    Accept,
    Drop,
    Reject,
}

impl View for FirewallVerdict {
    type V = FirewallVerdict;

    open spec fn view(&self) -> FirewallVerdict {
        *self
    }
}

impl Item for FirewallVerdict {
    fn alike(&self, other: &Self) -> (r: bool) {
        *self == *other
    }

    fn twin(&self) -> (r: Self) {
        *self
    }
}

/// The address family of a rule or a set.
#[derive(Debug, Clone, Copy, PartialEq, Eq, Structural)]
pub enum FirewallFamily {
    Any,
    Ipv4,
    Ipv6,
}

impl View for FirewallFamily {
    type V = FirewallFamily;

    open spec fn view(&self) -> FirewallFamily {
        *self
    }
}

impl Item for FirewallFamily {
    fn alike(&self, other: &Self) -> (r: bool) {
        *self == *other
    }

    fn twin(&self) -> (r: Self) {
        *self
    }
}

/// A transport protocol.
#[derive(Debug, Clone, Copy, PartialEq, Eq, Structural)]
pub enum FirewallProtocol {
    Tcp,
    Udp,
    Icmp,
    Icmpv6,
    Esp,
    Ah,
    Gre,
}

impl View for FirewallProtocol {
    type V = FirewallProtocol;

    open spec fn view(&self) -> FirewallProtocol {
        *self
    }
}

impl Item for FirewallProtocol {
    fn alike(&self, other: &Self) -> (r: bool) {
        *self == *other
    }

    fn twin(&self) -> (r: Self) {
        *self
    }
}

/// Which packets a filter rule sees.
#[derive(Debug, Clone, Copy, PartialEq, Eq, Structural)]
pub enum FirewallDirection {
    Input,
    Output,
    Forward,
}

impl View for FirewallDirection {
    type V = FirewallDirection;

    open spec fn view(&self) -> FirewallDirection {
        *self
    }
}

impl Item for FirewallDirection {
    fn alike(&self, other: &Self) -> (r: bool) {
        *self == *other
    }

    fn twin(&self) -> (r: Self) {
        *self
    }
}

/// How a rule translates addresses.
#[derive(Debug, Clone, Copy, PartialEq, Eq, Structural)]
pub enum FirewallNatKind {
    DestinationNat,
    SourceNat,
    Masquerade,
    Redirect,
}

impl View for FirewallNatKind {
    type V = FirewallNatKind;

    open spec fn view(&self) -> FirewallNatKind {
        *self
    }
}

impl Item for FirewallNatKind {
    fn alike(&self, other: &Self) -> (r: bool) {
        *self == *other
    }

    fn twin(&self) -> (r: Self) {
        *self
    }
}

/// The answer to a rejected packet.
#[derive(Debug, Clone, Copy, PartialEq, Eq, Structural)]
pub enum FirewallRejectKind {
    TcpReset,
    IcmpPortUnreachable,
    IcmpHostUnreachable,
    Icmp6PortUnreachable,
}

impl View for FirewallRejectKind {
    type V = FirewallRejectKind;

    open spec fn view(&self) -> FirewallRejectKind {
        *self
    }
}

impl Item for FirewallRejectKind {
    fn alike(&self, other: &Self) -> (r: bool) {
        *self == *other
    }

    fn twin(&self) -> (r: Self) {
        *self
    }
}

/// The severity of a log line.
#[derive(Debug, Clone, Copy, PartialEq, Eq, Structural)]
pub enum FirewallLogLevel {
    Emergency,
    Alert,
    Critical,
    Error,
    Warning,
    Notice,
    Info,
    Debug,
}

impl View for FirewallLogLevel {
    type V = FirewallLogLevel;

    open spec fn view(&self) -> FirewallLogLevel {
        *self
    }
}

impl Item for FirewallLogLevel {
    fn alike(&self, other: &Self) -> (r: bool) {
        *self == *other
    }

    fn twin(&self) -> (r: Self) {
        *self
    }
}

/// The state of a tracked connection.
#[derive(Debug, Clone, Copy, PartialEq, Eq, Structural)]
pub enum FirewallConntrackState {
    New,
    Established,
    Related,
    Invalid,
}

impl View for FirewallConntrackState {
    type V = FirewallConntrackState;

    open spec fn view(&self) -> FirewallConntrackState {
        *self
    }
}

impl Item for FirewallConntrackState {
    fn alike(&self, other: &Self) -> (r: bool) {
        *self == *other
    }

    fn twin(&self) -> (r: Self) {
        *self
    }
}

/// A range of ports, both ends included.
#[derive(Debug, Clone, Copy, PartialEq, Eq, Structural)]
pub struct PortRange {
    pub start: u16,
    pub end: u16,
}

impl View for PortRange {
    type V = PortRange;

    open spec fn view(&self) -> PortRange {
        *self
    }
}

impl Item for PortRange {
    fn alike(&self, other: &Self) -> (r: bool) {
        *self == *other
    }

    fn twin(&self) -> (r: Self) {
        *self
    }
}

/// A limit on how often a rule matches.
#[derive(Debug, Clone, Copy, PartialEq, Eq, Structural)]
pub struct FirewallRateLimit {
    pub packets_per_second: u32,
    pub burst: u32,
}

impl View for FirewallRateLimit {
    type V = FirewallRateLimit;

    open spec fn view(&self) -> FirewallRateLimit {
        *self
    }
}

impl Item for FirewallRateLimit {
    fn alike(&self, other: &Self) -> (r: bool) {
        *self == *other
    }

    fn twin(&self) -> (r: Self) {
        *self
    }
}

/// How a rule logs.
#[derive(Debug, Clone, PartialEq, Eq)]
pub struct FirewallLog {
    pub prefix: String,
    pub level: FirewallLogLevel,
}

#[verifier::ext_equal]
pub struct FirewallLogView {
    pub prefix: Seq<char>,
    pub level: FirewallLogLevel,
}

impl View for FirewallLog {
    type V = FirewallLogView;

    open spec fn view(&self) -> FirewallLogView {
        FirewallLogView {
            prefix: self.prefix@,
            level: self.level,
        }
    }
}

impl Item for FirewallLog {
    fn alike(&self, other: &Self) -> (r: bool) {
        same(self.prefix.as_str(), other.prefix.as_str())
            && self.level == other.level
    }

    fn twin(&self) -> (r: Self) {
        FirewallLog {
            prefix: self.prefix.clone(),
            level: self.level,
        }
    }
}

/// What a rule matches. An empty list does not restrict the rule.
#[derive(Debug, Clone, PartialEq, Eq)]
pub struct FirewallMatch {
    pub family: FirewallFamily,
    pub source_zones: Vec<String>,
    pub destination_zones: Vec<String>,
    pub input_interfaces: Vec<String>,
    pub output_interfaces: Vec<String>,
    pub source_networks: Vec<IpNetwork>,
    pub destination_networks: Vec<IpNetwork>,
    pub source_macs: Vec<String>,
    pub protocols: Vec<FirewallProtocol>,
    pub source_ports: Vec<PortRange>,
    pub destination_ports: Vec<PortRange>,
    pub icmp_types: Vec<u8>,
    pub conntrack_states: Vec<FirewallConntrackState>,
    pub source_sets: Vec<String>,
    pub destination_sets: Vec<String>,
}

#[verifier::ext_equal]
pub struct FirewallMatchView {
    pub family: FirewallFamily,
    pub source_zones: Seq<Seq<char>>,
    pub destination_zones: Seq<Seq<char>>,
    pub input_interfaces: Seq<Seq<char>>,
    pub output_interfaces: Seq<Seq<char>>,
    pub source_networks: Seq<IpNetwork>,
    pub destination_networks: Seq<IpNetwork>,
    pub source_macs: Seq<Seq<char>>,
    pub protocols: Seq<FirewallProtocol>,
    pub source_ports: Seq<PortRange>,
    pub destination_ports: Seq<PortRange>,
    pub icmp_types: Seq<u8>,
    pub conntrack_states: Seq<FirewallConntrackState>,
    pub source_sets: Seq<Seq<char>>,
    pub destination_sets: Seq<Seq<char>>,
}

impl View for FirewallMatch {
    type V = FirewallMatchView;

    open spec fn view(&self) -> FirewallMatchView {
        FirewallMatchView {
            family: self.family,
            source_zones: views(self.source_zones@),
            destination_zones: views(self.destination_zones@),
            input_interfaces: views(self.input_interfaces@),
            output_interfaces: views(self.output_interfaces@),
            source_networks: views(self.source_networks@),
            destination_networks: views(self.destination_networks@),
            source_macs: views(self.source_macs@),
            protocols: views(self.protocols@),
            source_ports: views(self.source_ports@),
            destination_ports: views(self.destination_ports@),
            icmp_types: views(self.icmp_types@),
            conntrack_states: views(self.conntrack_states@),
            source_sets: views(self.source_sets@),
            destination_sets: views(self.destination_sets@),
        }
    }
}

impl Item for FirewallMatch {
    fn alike(&self, other: &Self) -> (r: bool) {
        self.family == other.family
            && same_list(&self.source_zones, &other.source_zones)
            && same_list(&self.destination_zones, &other.destination_zones)
            && same_list(&self.input_interfaces, &other.input_interfaces)
            && same_list(&self.output_interfaces, &other.output_interfaces)
            && same_list(&self.source_networks, &other.source_networks)
            && same_list(&self.destination_networks, &other.destination_networks)
            && same_list(&self.source_macs, &other.source_macs)
            && same_list(&self.protocols, &other.protocols)
            && same_list(&self.source_ports, &other.source_ports)
            && same_list(&self.destination_ports, &other.destination_ports)
            && same_list(&self.icmp_types, &other.icmp_types)
            && same_list(&self.conntrack_states, &other.conntrack_states)
            && same_list(&self.source_sets, &other.source_sets)
            && same_list(&self.destination_sets, &other.destination_sets)
    }

    fn twin(&self) -> (r: Self) {
        FirewallMatch {
            family: self.family,
            source_zones: copy_list(&self.source_zones),
            destination_zones: copy_list(&self.destination_zones),
            input_interfaces: copy_list(&self.input_interfaces),
            output_interfaces: copy_list(&self.output_interfaces),
            source_networks: copy_list(&self.source_networks),
            destination_networks: copy_list(&self.destination_networks),
            source_macs: copy_list(&self.source_macs),
            protocols: copy_list(&self.protocols),
            source_ports: copy_list(&self.source_ports),
            destination_ports: copy_list(&self.destination_ports),
            icmp_types: copy_list(&self.icmp_types),
            conntrack_states: copy_list(&self.conntrack_states),
            source_sets: copy_list(&self.source_sets),
            destination_sets: copy_list(&self.destination_sets),
        }
    }
}

/// What a rule without restrictions matches.
pub open spec fn unrestricted() -> FirewallMatchView {
    FirewallMatchView {
        family: FirewallFamily::Any,
        source_zones: Seq::empty(),
        destination_zones: Seq::empty(),
        input_interfaces: Seq::empty(),
        output_interfaces: Seq::empty(),
        source_networks: Seq::empty(),
        destination_networks: Seq::empty(),
        source_macs: Seq::empty(),
        protocols: Seq::empty(),
        source_ports: Seq::empty(),
        destination_ports: Seq::empty(),
        icmp_types: Seq::empty(),
        conntrack_states: Seq::empty(),
        source_sets: Seq::empty(),
        destination_sets: Seq::empty(),
    }
}

impl Default for FirewallMatch {
    fn default() -> (r: FirewallMatch)
        ensures
            r@ == unrestricted(),
    {
        let r = FirewallMatch {
            family: FirewallFamily::Any,
            source_zones: Vec::new(),
            destination_zones: Vec::new(),
            input_interfaces: Vec::new(),
            output_interfaces: Vec::new(),
            source_networks: Vec::new(),
            destination_networks: Vec::new(),
            source_macs: Vec::new(),
            protocols: Vec::new(),
            source_ports: Vec::new(),
            destination_ports: Vec::new(),
            icmp_types: Vec::new(),
            conntrack_states: Vec::new(),
            source_sets: Vec::new(),
            destination_sets: Vec::new(),
        };
        assert(r@ =~= unrestricted());
        r
    }
}

/// A zone: networks under one policy.
#[derive(Debug, Clone, PartialEq, Eq)]
pub struct FirewallZone {
    pub id: String,
    pub ownership: ObjectOwnership,
    pub enabled: bool,
    pub networks: Vec<String>,
    pub input: FirewallVerdict,
    pub output: FirewallVerdict,
    pub forward: FirewallVerdict,
    pub masquerade: bool,
    pub mtu_fix: bool,
}

#[verifier::ext_equal]
pub struct FirewallZoneView {
    pub id: Seq<char>,
    pub ownership: ObjectOwnership,
    pub enabled: bool,
    pub networks: Seq<Seq<char>>,
    pub input: FirewallVerdict,
    pub output: FirewallVerdict,
    pub forward: FirewallVerdict,
    pub masquerade: bool,
    pub mtu_fix: bool,
}

impl View for FirewallZone {
    type V = FirewallZoneView;

    open spec fn view(&self) -> FirewallZoneView {
        FirewallZoneView {
            id: self.id@,
            ownership: self.ownership,
            enabled: self.enabled,
            networks: views(self.networks@),
            input: self.input,
            output: self.output,
            forward: self.forward,
            masquerade: self.masquerade,
            mtu_fix: self.mtu_fix,
        }
    }
}

impl Item for FirewallZone {
    fn alike(&self, other: &Self) -> (r: bool) {
        same(self.id.as_str(), other.id.as_str())
            && self.ownership == other.ownership
            && self.enabled == other.enabled
            && same_list(&self.networks, &other.networks)
            && self.input == other.input
            && self.output == other.output
            && self.forward == other.forward
            && self.masquerade == other.masquerade
            && self.mtu_fix == other.mtu_fix
    }

    fn twin(&self) -> (r: Self) {
        FirewallZone {
            id: self.id.clone(),
            ownership: self.ownership,
            enabled: self.enabled,
            networks: copy_list(&self.networks),
            input: self.input,
            output: self.output,
            forward: self.forward,
            masquerade: self.masquerade,
            mtu_fix: self.mtu_fix,
        }
    }
}

/// A permission to forward from one zone to another.
#[derive(Debug, Clone, PartialEq, Eq)]
pub struct FirewallForwarding {
    pub id: String,
    pub ownership: ObjectOwnership,
    pub enabled: bool,
    pub source_zone: String,
    pub destination_zone: String,
}

#[verifier::ext_equal]
pub struct FirewallForwardingView {
    pub id: Seq<char>,
    pub ownership: ObjectOwnership,
    pub enabled: bool,
    pub source_zone: Seq<char>,
    pub destination_zone: Seq<char>,
}

impl View for FirewallForwarding {
    type V = FirewallForwardingView;

    open spec fn view(&self) -> FirewallForwardingView {
        FirewallForwardingView {
            id: self.id@,
            ownership: self.ownership,
            enabled: self.enabled,
            source_zone: self.source_zone@,
            destination_zone: self.destination_zone@,
        }
    }
}

impl Item for FirewallForwarding {
    fn alike(&self, other: &Self) -> (r: bool) {
        same(self.id.as_str(), other.id.as_str())
            && self.ownership == other.ownership
            && self.enabled == other.enabled
            && same(self.source_zone.as_str(), other.source_zone.as_str())
            && same(self.destination_zone.as_str(), other.destination_zone.as_str())
    }

    fn twin(&self) -> (r: Self) {
        FirewallForwarding {
            id: self.id.clone(),
            ownership: self.ownership,
            enabled: self.enabled,
            source_zone: self.source_zone.clone(),
            destination_zone: self.destination_zone.clone(),
        }
    }
}

/// A filter rule.
#[derive(Debug, Clone, PartialEq, Eq)]
pub struct FirewallFilterRule {
    pub id: String,
    pub ownership: ObjectOwnership,
    pub enabled: bool,
    pub direction: FirewallDirection,
    pub matches: FirewallMatch,
    pub verdict: FirewallVerdict,
    pub reject_with: Option<FirewallRejectKind>,
    pub rate_limit: Option<FirewallRateLimit>,
    pub log: Option<FirewallLog>,
    pub order: u32,
}

#[verifier::ext_equal]
pub struct FirewallFilterRuleView {
    pub id: Seq<char>,
    pub ownership: ObjectOwnership,
    pub enabled: bool,
    pub direction: FirewallDirection,
    pub matches: FirewallMatchView,
    pub verdict: FirewallVerdict,
    pub reject_with: Option<FirewallRejectKind>,
    pub rate_limit: Option<FirewallRateLimit>,
    pub log: Option<FirewallLogView>,
    pub order: u32,
}

impl View for FirewallFilterRule {
    type V = FirewallFilterRuleView;

    open spec fn view(&self) -> FirewallFilterRuleView {
        FirewallFilterRuleView {
            id: self.id@,
            ownership: self.ownership,
            enabled: self.enabled,
            direction: self.direction,
            matches: self.matches@,
            verdict: self.verdict,
            reject_with: opt(self.reject_with),
            rate_limit: opt(self.rate_limit),
            log: opt(self.log),
            order: self.order,
        }
    }
}

impl Item for FirewallFilterRule {
    fn alike(&self, other: &Self) -> (r: bool) {
        same(self.id.as_str(), other.id.as_str())
            && self.ownership == other.ownership
            && self.enabled == other.enabled
            && self.direction == other.direction
            && self.matches.alike(&other.matches)
            && self.verdict == other.verdict
            && same_opt(&self.reject_with, &other.reject_with)
            && same_opt(&self.rate_limit, &other.rate_limit)
            && same_opt(&self.log, &other.log)
            && self.order == other.order
    }

    fn twin(&self) -> (r: Self) {
        FirewallFilterRule {
            id: self.id.clone(),
            ownership: self.ownership,
            enabled: self.enabled,
            direction: self.direction,
            matches: self.matches.twin(),
            verdict: self.verdict,
            reject_with: copy_opt(&self.reject_with),
            rate_limit: copy_opt(&self.rate_limit),
            log: copy_opt(&self.log),
            order: self.order,
        }
    }
}

/// One entry of an address set.
#[derive(Debug, Clone, PartialEq, Eq)]
pub enum FirewallSetEntry {
    Network(IpNetwork),
    Mac(String),
    Port(PortRange),
}

#[verifier::ext_equal]
pub enum FirewallSetEntryView {
    Network(IpNetwork),
    Mac(Seq<char>),
    Port(PortRange),
}

impl View for FirewallSetEntry {
    type V = FirewallSetEntryView;

    open spec fn view(&self) -> FirewallSetEntryView {
        match self {
            FirewallSetEntry::Network(x) => FirewallSetEntryView::Network(*x),
            FirewallSetEntry::Mac(x) => FirewallSetEntryView::Mac(x@),
            FirewallSetEntry::Port(x) => FirewallSetEntryView::Port(*x),
        }
    }
}

impl Item for FirewallSetEntry {
    fn alike(&self, other: &Self) -> (r: bool) {
        match (self, other) {
            (FirewallSetEntry::Network(x), FirewallSetEntry::Network(y)) => *x == *y,
            (FirewallSetEntry::Mac(x), FirewallSetEntry::Mac(y)) => same(x.as_str(), y.as_str()),
            (FirewallSetEntry::Port(x), FirewallSetEntry::Port(y)) => *x == *y,
            _ => false,
        }
    }

    fn twin(&self) -> (r: Self) {
        match self {
            FirewallSetEntry::Network(x) => FirewallSetEntry::Network(*x),
            FirewallSetEntry::Mac(x) => FirewallSetEntry::Mac(x.clone()),
            FirewallSetEntry::Port(x) => FirewallSetEntry::Port(*x),
        }
    }
}

/// A named set that rules refer to.
#[derive(Debug, Clone, PartialEq, Eq)]
pub struct FirewallAddressSet {
    pub id: String,
    pub ownership: ObjectOwnership,
    pub enabled: bool,
    pub family: FirewallFamily,
    pub entries: Vec<FirewallSetEntry>,
}

#[verifier::ext_equal]
pub struct FirewallAddressSetView {
    pub id: Seq<char>,
    pub ownership: ObjectOwnership,
    pub enabled: bool,
    pub family: FirewallFamily,
    pub entries: Seq<FirewallSetEntryView>,
}

impl View for FirewallAddressSet {
    type V = FirewallAddressSetView;

    open spec fn view(&self) -> FirewallAddressSetView {
        FirewallAddressSetView {
            id: self.id@,
            ownership: self.ownership,
            enabled: self.enabled,
            family: self.family,
            entries: views(self.entries@),
        }
    }
}

impl Item for FirewallAddressSet {
    fn alike(&self, other: &Self) -> (r: bool) {
        same(self.id.as_str(), other.id.as_str())
            && self.ownership == other.ownership
            && self.enabled == other.enabled
            && self.family == other.family
            && same_list(&self.entries, &other.entries)
    }

    fn twin(&self) -> (r: Self) {
        FirewallAddressSet {
            id: self.id.clone(),
            ownership: self.ownership,
            enabled: self.enabled,
            family: self.family,
            entries: copy_list(&self.entries),
        }
    }
}

/// A translation rule.
#[derive(Debug, Clone, PartialEq, Eq)]
pub struct FirewallNatRule {
    pub id: String,
    pub ownership: ObjectOwnership,
    pub enabled: bool,
    pub kind: FirewallNatKind,
    pub matches: FirewallMatch,
    pub translation_address: Option<IpAddr>,
    pub translation_port: Option<PortRange>,
    pub order: u32,
}

#[verifier::ext_equal]
pub struct FirewallNatRuleView {
    pub id: Seq<char>,
    pub ownership: ObjectOwnership,
    pub enabled: bool,
    pub kind: FirewallNatKind,
    pub matches: FirewallMatchView,
    pub translation_address: Option<IpAddr>,
    pub translation_port: Option<PortRange>,
    pub order: u32,
}

impl View for FirewallNatRule {
    type V = FirewallNatRuleView;

    open spec fn view(&self) -> FirewallNatRuleView {
        FirewallNatRuleView {
            id: self.id@,
            ownership: self.ownership,
            enabled: self.enabled,
            kind: self.kind,
            matches: self.matches@,
            translation_address: opt(self.translation_address),
            translation_port: opt(self.translation_port),
            order: self.order,
        }
    }
}

impl Item for FirewallNatRule {
    fn alike(&self, other: &Self) -> (r: bool) {
        same(self.id.as_str(), other.id.as_str())
            && self.ownership == other.ownership
            && self.enabled == other.enabled
            && self.kind == other.kind
            && self.matches.alike(&other.matches)
            && same_opt(&self.translation_address, &other.translation_address)
            && same_opt(&self.translation_port, &other.translation_port)
            && self.order == other.order
    }

    fn twin(&self) -> (r: Self) {
        FirewallNatRule {
            id: self.id.clone(),
            ownership: self.ownership,
            enabled: self.enabled,
            kind: self.kind,
            matches: self.matches.twin(),
            translation_address: copy_opt(&self.translation_address),
            translation_port: copy_opt(&self.translation_port),
            order: self.order,
        }
    }
}

/// A firewall object of any kind.
#[derive(Debug, Clone, PartialEq, Eq)]
pub enum FirewallObject {
    Zone(FirewallZone),
    Forwarding(FirewallForwarding),
    FilterRule(FirewallFilterRule),
    AddressSet(FirewallAddressSet),
    NatRule(FirewallNatRule),
}

#[verifier::ext_equal]
pub enum FirewallObjectView {
    Zone(FirewallZoneView),
    Forwarding(FirewallForwardingView),
    FilterRule(FirewallFilterRuleView),
    AddressSet(FirewallAddressSetView),
    NatRule(FirewallNatRuleView),
}

impl View for FirewallObject {
    type V = FirewallObjectView;

    open spec fn view(&self) -> FirewallObjectView {
        match self {
            FirewallObject::Zone(x) => FirewallObjectView::Zone(x@),
            FirewallObject::Forwarding(x) => FirewallObjectView::Forwarding(x@),
            FirewallObject::FilterRule(x) => FirewallObjectView::FilterRule(x@),
            FirewallObject::AddressSet(x) => FirewallObjectView::AddressSet(x@),
            FirewallObject::NatRule(x) => FirewallObjectView::NatRule(x@),
        }
    }
}

impl Item for FirewallObject {
    fn alike(&self, other: &Self) -> (r: bool) {
        match (self, other) {
            (FirewallObject::Zone(x), FirewallObject::Zone(y)) => x.alike(y),
            (FirewallObject::Forwarding(x), FirewallObject::Forwarding(y)) => x.alike(y),
            (FirewallObject::FilterRule(x), FirewallObject::FilterRule(y)) => x.alike(y),
            (FirewallObject::AddressSet(x), FirewallObject::AddressSet(y)) => x.alike(y),
            (FirewallObject::NatRule(x), FirewallObject::NatRule(y)) => x.alike(y),
            _ => false,
        }
    }

    fn twin(&self) -> (r: Self) {
        match self {
            FirewallObject::Zone(x) => FirewallObject::Zone(x.twin()),
            FirewallObject::Forwarding(x) => FirewallObject::Forwarding(x.twin()),
            FirewallObject::FilterRule(x) => FirewallObject::FilterRule(x.twin()),
            FirewallObject::AddressSet(x) => FirewallObject::AddressSet(x.twin()),
            FirewallObject::NatRule(x) => FirewallObject::NatRule(x.twin()),
        }
    }
}

impl FirewallObjectView {
    /// The name of the object's kind.
    pub open spec fn kind(self) -> Seq<char> {
        match self {
            FirewallObjectView::Zone(_) => "zone"@,
            FirewallObjectView::Forwarding(_) => "forwarding"@,
            FirewallObjectView::FilterRule(_) => "filter_rule"@,
            FirewallObjectView::AddressSet(_) => "address_set"@,
            FirewallObjectView::NatRule(_) => "nat_rule"@,
        }
    }

    pub open spec fn id(self) -> Seq<char> {
        match self {
            FirewallObjectView::Zone(x) => x.id,
            FirewallObjectView::Forwarding(x) => x.id,
            FirewallObjectView::FilterRule(x) => x.id,
            FirewallObjectView::AddressSet(x) => x.id,
            FirewallObjectView::NatRule(x) => x.id,
        }
    }

    pub open spec fn ownership(self) -> ObjectOwnership {
        match self {
            FirewallObjectView::Zone(x) => x.ownership,
            FirewallObjectView::Forwarding(x) => x.ownership,
            FirewallObjectView::FilterRule(x) => x.ownership,
            FirewallObjectView::AddressSet(x) => x.ownership,
            FirewallObjectView::NatRule(x) => x.ownership,
        }
    }
}

impl FirewallObject {
    /// The name of the object's kind.
    pub fn kind(&self) -> (r: &'static str)
        ensures
            r@ == self@.kind(),
    {
        match self {
            FirewallObject::Zone(_) => "zone",
            FirewallObject::Forwarding(_) => "forwarding",
            FirewallObject::FilterRule(_) => "filter_rule",
            FirewallObject::AddressSet(_) => "address_set",
            FirewallObject::NatRule(_) => "nat_rule",
        }
    }

    pub fn id(&self) -> (r: &str)
        ensures
            r@ == self@.id(),
    {
        match self {
            FirewallObject::Zone(x) => x.id.as_str(),
            FirewallObject::Forwarding(x) => x.id.as_str(),
            FirewallObject::FilterRule(x) => x.id.as_str(),
            FirewallObject::AddressSet(x) => x.id.as_str(),
            FirewallObject::NatRule(x) => x.id.as_str(),
        }
    }

    pub fn ownership(&self) -> (r: ObjectOwnership)
        ensures
            r == self@.ownership(),
    {
        match self {
            FirewallObject::Zone(x) => x.ownership,
            FirewallObject::Forwarding(x) => x.ownership,
            FirewallObject::FilterRule(x) => x.ownership,
            FirewallObject::AddressSet(x) => x.ownership,
            FirewallObject::NatRule(x) => x.ownership,
        }
    }
}

/// The firewall objects of a platform.
#[derive(Debug, Clone, PartialEq, Eq)]
pub struct FirewallInventory {
    pub objects: Vec<FirewallObject>,
}

#[verifier::ext_equal]
pub struct FirewallInventoryView {
    pub objects: Seq<FirewallObjectView>,
}

impl View for FirewallInventory {
    type V = FirewallInventoryView;

    open spec fn view(&self) -> FirewallInventoryView {
        FirewallInventoryView {
            objects: views(self.objects@),
        }
    }
}

impl Item for FirewallInventory {
    fn alike(&self, other: &Self) -> (r: bool) {
        same_list(&self.objects, &other.objects)
    }

    fn twin(&self) -> (r: Self) {
        FirewallInventory {
            objects: copy_list(&self.objects),
        }
    }
}

/// One planned change of a firewall object, with what the object model says of both sides.
#[derive(Debug, Clone, PartialEq, Eq)]
pub struct FirewallPlannedChange {
    pub before: Option<FirewallObject>,
    pub after: Option<FirewallObject>,
    pub diff: ObjectDiff,
    pub before_checks: ObjectChecks,
    pub after_checks: ObjectChecks,
}

#[verifier::ext_equal]
pub struct FirewallPlannedChangeView {
    pub before: Option<FirewallObjectView>,
    pub after: Option<FirewallObjectView>,
    pub diff: ObjectDiffView,
    pub before_checks: ObjectChecksView,
    pub after_checks: ObjectChecksView,
}

impl View for FirewallPlannedChange {
    type V = FirewallPlannedChangeView;

    open spec fn view(&self) -> FirewallPlannedChangeView {
        FirewallPlannedChangeView {
            before: opt(self.before),
            after: opt(self.after),
            diff: self.diff@,
            before_checks: self.before_checks@,
            after_checks: self.after_checks@,
        }
    }
}

impl Item for FirewallPlannedChange {
    fn alike(&self, other: &Self) -> (r: bool) {
        same_opt(&self.before, &other.before)
            && same_opt(&self.after, &other.after)
            && self.diff.alike(&other.diff)
            && self.before_checks.alike(&other.before_checks)
            && self.after_checks.alike(&other.after_checks)
    }

    fn twin(&self) -> (r: Self) {
        FirewallPlannedChange {
            before: copy_opt(&self.before),
            after: copy_opt(&self.after),
            diff: self.diff.twin(),
            before_checks: self.before_checks.twin(),
            after_checks: self.after_checks.twin(),
        }
    }
}

/// A plan for the firewall.
#[derive(Debug, Clone, PartialEq, Eq)]
pub struct FirewallMutationPlan {
    pub risk: RiskLevel,
    pub changes: Vec<FirewallPlannedChange>,
}

#[verifier::ext_equal]
pub struct FirewallMutationPlanView {
    pub risk: RiskLevel,
    pub changes: Seq<FirewallPlannedChangeView>,
}

impl View for FirewallMutationPlan {
    type V = FirewallMutationPlanView;

    open spec fn view(&self) -> FirewallMutationPlanView {
        FirewallMutationPlanView {
            risk: self.risk,
            changes: views(self.changes@),
        }
    }
}

impl Item for FirewallMutationPlan {
    fn alike(&self, other: &Self) -> (r: bool) {
        self.risk == other.risk
            && same_list(&self.changes, &other.changes)
    }

    fn twin(&self) -> (r: Self) {
        FirewallMutationPlan {
            risk: self.risk,
            changes: copy_list(&self.changes),
        }
    }
}

} // verus!
