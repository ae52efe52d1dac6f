//! Typed firewall objects reconstructed from a UCI snapshot.

use vstd::prelude::*;

use vstd::string::*;

use crate::change::ObjectOwnership;
use crate::firewall_error::{FirewallRenderError, FirewallRenderErrorView};
use crate::firewall_model::{
    FirewallAddressSet, FirewallAddressSetView, FirewallDirection, FirewallFamily, FirewallFilterRule,
    FirewallFilterRuleView, FirewallForwarding, FirewallForwardingView, FirewallInventory,
    FirewallInventoryView, FirewallLog, FirewallLogLevel, FirewallLogView, FirewallMatch, FirewallMatchView,
    FirewallNatKind, FirewallNatRule, FirewallNatRuleView, FirewallObject, FirewallObjectView,
    FirewallProtocol, FirewallRateLimit, FirewallSetEntry, FirewallSetEntryView, FirewallVerdict,
    FirewallZone, FirewallZoneView, PortRange,
};
use crate::firewall_uci::{
    anonymous_index, index_in_selector, package_sections, parse_uci_show, text_view, UciOptionView,
    UciSection, UciSectionView,
};
use crate::items::{copy_list, same_list, Item};
use crate::net::{
    address_value, network_value, parse_address, parse_network, IpAddr, IpNetwork,
};
use crate::network_decode::{or_bool, or_else, or_text, truth, truth_of, values_of};
use crate::network_openwrt::verdict_at;
use crate::order::{sort_texts, sorted_texts};
use crate::parse::{map_all, olist, read_all, read_u16, read_u32, u16_value, u32_value, Bytes, Reader};
use crate::text::{
    begins, chars_are, chars_of, cut, ends, find, has_prefix, hex_digit, is_hex, lower_all, lower_text, piece,
    same, split, split_at_each, split_once, split_words, starts, string_of, words,
};
use crate::uci_render::among;
use crate::views::{group_views, lvres, opt, views, vres};

verus! {

broadcast use group_views;

/// Which section an object was found in, and which options that section sets.
#[derive(Debug, Clone, PartialEq, Eq)]
pub struct OpenWrtObjectBinding {
    pub kind: String,
    pub id: String,
    pub section_type: String,
    pub section: String,
    pub present_options: Vec<String>,
}

#[verifier::ext_equal]
pub struct OpenWrtObjectBindingView {
    pub kind: Seq<char>,
    pub id: Seq<char>,
    pub section_type: Seq<char>,
    pub section: Seq<char>,
    pub present_options: Seq<Seq<char>>,
}

impl View for OpenWrtObjectBinding {
    type V = OpenWrtObjectBindingView;

    open spec fn view(&self) -> OpenWrtObjectBindingView {
        OpenWrtObjectBindingView {
            kind: self.kind@,
            id: self.id@,
            section_type: self.section_type@,
            section: self.section@,
            present_options: views(self.present_options@),
        }
    }
}

impl Item for OpenWrtObjectBinding {
    fn alike(&self, other: &Self) -> (r: bool) {
        same(self.kind.as_str(), other.kind.as_str())
            && same(self.id.as_str(), other.id.as_str())
            && same(self.section_type.as_str(), other.section_type.as_str())
            && same(self.section.as_str(), other.section.as_str())
            && same_list(&self.present_options, &other.present_options)
    }

    fn twin(&self) -> (r: Self) {
        OpenWrtObjectBinding {
            kind: self.kind.clone(),
            id: self.id.clone(),
            section_type: self.section_type.clone(),
            section: self.section.clone(),
            present_options: copy_list(&self.present_options),
        }
    }
}

/// One bounded, consistent view of the firewall package.
#[derive(Debug, Clone, PartialEq, Eq)]
pub struct OpenWrtFirewallInventorySnapshot {
    inventory: FirewallInventory,
    bindings: Vec<OpenWrtObjectBinding>,
    occupied_sections: Vec<String>,
    read_only_sections: Vec<String>,
}

#[verifier::ext_equal]
pub struct OpenWrtFirewallInventorySnapshotView {
    pub inventory: FirewallInventoryView,
    pub bindings: Seq<OpenWrtObjectBindingView>,
    pub occupied_sections: Seq<Seq<char>>,
    pub read_only_sections: Seq<Seq<char>>,
}

impl View for OpenWrtFirewallInventorySnapshot {
    type V = OpenWrtFirewallInventorySnapshotView;

    closed spec fn view(&self) -> OpenWrtFirewallInventorySnapshotView {
        OpenWrtFirewallInventorySnapshotView {
            inventory: self.inventory@,
            bindings: views(self.bindings@),
            occupied_sections: views(self.occupied_sections@),
            read_only_sections: views(self.read_only_sections@),
        }
    }
}

impl Item for OpenWrtFirewallInventorySnapshot {
    fn alike(&self, other: &Self) -> (r: bool) {
        self.inventory.alike(&other.inventory)
            && same_list(&self.bindings, &other.bindings)
            && same_list(&self.occupied_sections, &other.occupied_sections)
            && same_list(&self.read_only_sections, &other.read_only_sections)
    }

    fn twin(&self) -> (r: Self) {
        OpenWrtFirewallInventorySnapshot {
            inventory: self.inventory.twin(),
            bindings: copy_list(&self.bindings),
            occupied_sections: copy_list(&self.occupied_sections),
            read_only_sections: copy_list(&self.read_only_sections),
        }
    }
}

/// What the sections seen so far came to.
#[derive(Debug, Clone, PartialEq, Eq)]
pub struct FirewallScan {
    pub objects: Vec<FirewallObject>,
    pub bindings: Vec<OpenWrtObjectBinding>,
    pub read_only: Vec<String>,
}

#[verifier::ext_equal]
pub struct FirewallScanView {
    pub objects: Seq<FirewallObjectView>,
    pub bindings: Seq<OpenWrtObjectBindingView>,
    pub read_only: Seq<Seq<char>>,
}

impl View for FirewallScan {
    type V = FirewallScanView;

    open spec fn view(&self) -> FirewallScanView {
        FirewallScanView {
            objects: views(self.objects@),
            bindings: views(self.bindings@),
            read_only: views(self.read_only@),
        }
    }
}

impl Item for FirewallScan {
    fn alike(&self, other: &Self) -> (r: bool) {
        same_list(&self.objects, &other.objects)
            && same_list(&self.bindings, &other.bindings)
            && same_list(&self.read_only, &other.read_only)
    }

    fn twin(&self) -> (r: Self) {
        FirewallScan {
            objects: copy_list(&self.objects),
            bindings: copy_list(&self.bindings),
            read_only: copy_list(&self.read_only),
        }
    }
}

pub const MAX_BINDING_OPTIONS: usize = 64;

impl OpenWrtFirewallInventorySnapshot {
    pub fn inventory(&self) -> (r: &FirewallInventory)
        ensures
            r@ == self@.inventory,
    {
        &self.inventory
    }

    pub fn bindings(&self) -> (r: &[OpenWrtObjectBinding])
        ensures
            views(r@) == self@.bindings,
    {
        self.bindings.as_slice()
    }

    /// Every section selector, those of sections that were not understood among them.
    pub fn occupied_sections(&self) -> (r: &[String])
        ensures
            views(r@) == self@.occupied_sections,
    {
        self.occupied_sections.as_slice()
    }

    /// The sections that cannot be represented without losing their meaning.
    pub fn read_only_sections(&self) -> (r: &[String])
        ensures
            views(r@) == self@.read_only_sections,
    {
        self.read_only_sections.as_slice()
    }

    pub(crate) fn binding_list(&self) -> (r: &Vec<OpenWrtObjectBinding>)
        ensures
            views(r@) == self@.bindings,
    {
        &self.bindings
    }

    pub(crate) fn occupied_list(&self) -> (r: &Vec<String>)
        ensures
            views(r@) == self@.occupied_sections,
    {
        &self.occupied_sections
    }
}

/// The verdicts that a zone without its own falls back to.
#[derive(Debug, Clone, Copy, PartialEq, Eq, Structural)]
pub struct ZoneDefaults {
    pub input: FirewallVerdict,
    pub output: FirewallVerdict,
    pub forward: FirewallVerdict,
}

pub open spec fn verdict_word(s: Seq<char>) -> Option<FirewallVerdict> {
    let l = lower_all(s);
    if l == "accept"@ {
        Some(FirewallVerdict::Accept)
    } else if l == "drop"@ {
        Some(FirewallVerdict::Drop)
    } else if l == "reject"@ {
        Some(FirewallVerdict::Reject)
    } else {
        None
    }
}

pub open spec fn verdict_option(s: UciSectionView, name: Seq<char>) -> Option<FirewallVerdict> {
    match s.scalar(name) {
        Some(v) => verdict_word(v),
        None => None,
    }
}

/// A policy that may be absent: nothing where it is malformed or has several values.
pub open spec fn policy_option(s: UciSectionView, name: Seq<char>) -> Option<
    Option<FirewallVerdict>,
> {
    match s.get(name) {
        None => Some(None),
        Some(v) => if v.len() == 1 {
            match verdict_word(v[0]) {
                Some(x) => Some(Some(x)),
                None => None,
            }
        } else {
            None
        },
    }
}

/// An optional truth value: nothing where it is malformed or has several values.
pub open spec fn switch_option(s: UciSectionView, name: Seq<char>) -> Option<Option<bool>> {
    match s.get(name) {
        None => Some(None),
        Some(v) => if v.len() == 1 {
            match truth(v[0]) {
                Some(b) => Some(Some(b)),
                None => None,
            }
        } else {
            None
        },
    }
}

pub open spec fn enabled_option(s: UciSectionView) -> Option<bool> {
    match switch_option(s, "enabled"@) {
        Some(b) => Some(or_else(b, true)),
        None => None,
    }
}

pub open spec fn family_word(s: Seq<char>) -> Option<FirewallFamily> {
    if s == "any"@ || s == "*"@ {
        Some(FirewallFamily::Any)
    } else if s == "ipv4"@ || s == "4"@ {
        Some(FirewallFamily::Ipv4)
    } else if s == "ipv6"@ || s == "6"@ {
        Some(FirewallFamily::Ipv6)
    } else {
        None
    }
}

pub open spec fn family_option(s: UciSectionView) -> Option<FirewallFamily> {
    family_word(or_else(s.scalar("family"@), "any"@))
}

pub open spec fn protocol_word(s: Seq<char>) -> Option<FirewallProtocol> {
    if s == "tcp"@ {
        Some(FirewallProtocol::Tcp)
    } else if s == "udp"@ {
        Some(FirewallProtocol::Udp)
    } else if s == "icmp"@ {
        Some(FirewallProtocol::Icmp)
    } else if s == "icmpv6"@ || s == "ipv6-icmp"@ {
        Some(FirewallProtocol::Icmpv6)
    } else if s == "esp"@ {
        Some(FirewallProtocol::Esp)
    } else if s == "ah"@ {
        Some(FirewallProtocol::Ah)
    } else if s == "gre"@ {
        Some(FirewallProtocol::Gre)
    } else {
        None
    }
}

/// The words of the values from `i` on, behind `acc`.
pub open spec fn all_words(acc: Seq<Seq<char>>, values: Seq<Seq<char>>, i: int) -> Seq<Seq<char>>
    decreases values.len() - i,
{
    if i < 0 || i >= values.len() {
        acc
    } else {
        all_words(acc + words(values[i]), values, i + 1)
    }
}

pub open spec fn protocols_option(s: UciSectionView) -> Option<Seq<FirewallProtocol>> {
    map_all(
        all_words(Seq::empty(), s.values("proto"@), 0),
        |w: Seq<char>| ProtocolWords::value(w),
    )
}

/// An address with a prefix length, or a single address.
pub open spec fn loose_network(s: Seq<char>) -> Option<IpNetwork> {
    if s.contains('/') {
        network_value(s)
    } else {
        match address_value(s) {
            Some(address) => Some(
                IpNetwork {
                    address,
                    prefix_len: if address is V4 {
                        32
                    } else {
                        128
                    },
                },
            ),
            None => None,
        }
    }
}

/// A port, or a range of ports.
pub open spec fn port_value(s: Seq<char>) -> Option<PortRange> {
    match split_once(s, '-') {
        Some((a, b)) => match (u16_value(a), u16_value(b)) {
            (Some(start), Some(end)) => Some(PortRange { start, end }),
            _ => None,
        },
        None => match u16_value(s) {
            Some(p) => Some(PortRange { start: p, end: p }),
            None => None,
        },
    }
}

pub open spec fn is_mac(s: Seq<char>) -> bool {
    let p = split(s, ':');
    p.len() == 6 && forall|i: int|
        0 <= i < 6 ==> (#[trigger] p[i]).len() == 2 && is_hex(p[i][0]) && is_hex(p[i][1])
}

/// A hardware address in lower case.
pub open spec fn mac_value(s: Seq<char>) -> Option<Seq<char>> {
    if is_mac(lower_all(s)) {
        Some(lower_all(s))
    } else {
        None
    }
}

pub open spec fn address_option(s: UciSectionView, name: Seq<char>) -> Option<Option<IpAddr>> {
    match s.get(name) {
        None => Some(None),
        Some(v) => if v.len() == 1 {
            match address_value(v[0]) {
                Some(a) => Some(Some(a)),
                None => None,
            }
        } else {
            None
        },
    }
}

pub open spec fn port_option(s: UciSectionView, name: Seq<char>) -> Option<Option<PortRange>> {
    match s.get(name) {
        None => Some(None),
        Some(v) => if v.len() == 1 {
            match port_value(v[0]) {
                Some(a) => Some(Some(a)),
                None => None,
            }
        } else {
            None
        },
    }
}

pub open spec fn networks_option(s: UciSectionView, name: Seq<char>) -> Option<Seq<IpNetwork>> {
    map_all(s.values(name), |r: Seq<char>| LooseNetworks::value(r))
}

pub open spec fn ports_option(s: UciSectionView, name: Seq<char>) -> Option<Seq<PortRange>> {
    map_all(s.values(name), |r: Seq<char>| Ports::value(r))
}

pub open spec fn macs_option(s: UciSectionView, name: Seq<char>) -> Option<Seq<Seq<char>>> {
    map_all(s.values(name), |r: Seq<char>| Macs::value(r))
}

pub open spec fn list_of(o: Option<Seq<char>>) -> Seq<Seq<char>> {
    match o {
        Some(v) => seq![v],
        None => Seq::empty(),
    }
}

/// The set that a rule names, and whether it is matched by the source.
pub open spec fn set_option(s: UciSectionView) -> Option<Option<(Seq<char>, bool)>> {
    match s.scalar("ipset"@) {
        None => Some(None),
        Some(v) => {
            let w = words(v);
            if w.len() == 2 && w[1] == "src"@ {
                Some(Some((w[0], true)))
            } else if w.len() == 2 && w[1] == "dest"@ {
                Some(Some((w[0], false)))
            } else {
                None
            }
        },
    }
}

pub open spec fn common_matches(s: UciSectionView) -> Option<FirewallMatchView> {
    let family = family_option(s);
    let source_networks = networks_option(s, "src_ip"@);
    let destination_networks = networks_option(s, "dest_ip"@);
    let macs = macs_option(s, "src_mac"@);
    let protocols = protocols_option(s);
    let source_ports = ports_option(s, "src_port"@);
    let destination_ports = ports_option(s, "dest_port"@);
    let icmp = map_all(s.values("icmp_type"@), |r: Seq<char>| Bytes::value(r));
    let set = set_option(s);
    if family is Some && source_networks is Some && destination_networks is Some && macs is Some
        && protocols is Some && source_ports is Some && destination_ports is Some && icmp is Some
        && set is Some {
        let named = set->Some_0;
        Some(
            FirewallMatchView {
                family: family->Some_0,
                source_zones: list_of(s.scalar("src"@)),
                destination_zones: list_of(s.scalar("dest"@)),
                input_interfaces: Seq::empty(),
                output_interfaces: Seq::empty(),
                source_networks: source_networks->Some_0,
                destination_networks: destination_networks->Some_0,
                source_macs: macs->Some_0,
                protocols: protocols->Some_0,
                source_ports: source_ports->Some_0,
                destination_ports: destination_ports->Some_0,
                icmp_types: icmp->Some_0,
                conntrack_states: Seq::empty(),
                source_sets: if named is Some && named->Some_0.1 {
                    seq![named->Some_0.0]
                } else {
                    Seq::empty()
                },
                destination_sets: if named is Some && !named->Some_0.1 {
                    seq![named->Some_0.0]
                } else {
                    Seq::empty()
                },
            },
        )
    } else {
        None
    }
}

/// The direction of a rule, and the matches with the interface that the rule names.
pub open spec fn directed(s: UciSectionView, m: FirewallMatchView) -> Option<
    (FirewallDirection, FirewallMatchView),
> {
    match (s.scalar("device"@), s.scalar("direction"@)) {
        (Some(device), Some(d)) => if d == "in"@ {
            Some(
                (
                    FirewallDirection::Input,
                    FirewallMatchView { input_interfaces: m.input_interfaces.push(device), ..m },
                ),
            )
        } else if d == "out"@ {
            Some(
                (
                    FirewallDirection::Output,
                    FirewallMatchView { output_interfaces: m.output_interfaces.push(device), ..m },
                ),
            )
        } else {
            None
        },
        (None, None) => if m.destination_zones.len() == 0 {
            Some((FirewallDirection::Input, m))
        } else if m.source_zones.len() == 0 {
            Some((FirewallDirection::Output, m))
        } else {
            Some((FirewallDirection::Forward, m))
        },
        _ => None,
    }
}

/// Who a section belongs to; nothing where a reserved name does not have the form of its type.
pub open spec fn ownership_value(s: UciSectionView) -> Option<ObjectOwnership> {
    if !starts(s.selector, "mbed_"@) {
        Some(ObjectOwnership::PlatformNative)
    } else {
        match ownership_marker(s.section_type) {
            Some(marker) => if starts(s.selector, marker) && is_short_digest(
                s.selector.skip(marker.len() as int),
            ) {
                Some(ObjectOwnership::AgentOwned)
            } else {
                None
            },
            None => None,
        }
    }
}

pub open spec fn ownership_marker(section_type: Seq<char>) -> Option<Seq<char>> {
    if section_type == "zone"@ {
        Some("mbed_z_"@)
    } else if section_type == "forwarding"@ {
        Some("mbed_f_"@)
    } else if section_type == "rule"@ {
        Some("mbed_r_"@)
    } else if section_type == "ipset"@ {
        Some("mbed_s_"@)
    } else if section_type == "redirect"@ || section_type == "nat"@ {
        Some("mbed_n_"@)
    } else {
        None
    }
}

pub open spec fn is_short_digest(s: Seq<char>) -> bool {
    s.len() == 16 && forall|i: int| 0 <= i < s.len() ==> is_hex(#[trigger] s[i])
}

/// The name of an unnamed section, by its position.
pub open spec fn position_id(s: UciSectionView, kind: Seq<char>) -> Option<Seq<char>> {
    match anonymous_index(s.selector, kind) {
        Some(index) => Some("platform-"@ + kind + "-"@ + index),
        None => None,
    }
}

pub open spec fn rule_id(s: UciSectionView, kind: Seq<char>) -> Option<Seq<char>> {
    match s.scalar("name"@) {
        Some(v) => Some(v),
        None => position_id(s, kind),
    }
}

/// The options of a section type that may have several values.
pub open spec fn plural_options(section_type: Seq<char>) -> Seq<Seq<char>> {
    if section_type == "zone"@ {
        seq!["network"@]
    } else if section_type == "rule"@ {
        seq!["src_ip"@, "src_mac"@, "src_port"@, "dest_ip"@, "dest_port"@, "icmp_type"@]
    } else if section_type == "ipset"@ {
        seq!["entry"@]
    } else if section_type == "redirect"@ {
        seq!["src_mac"@]
    } else {
        Seq::empty()
    }
}

pub open spec fn has_plurality(options: Seq<UciOptionView>, plural: Seq<Seq<char>>) -> bool {
    forall|i: int|
        0 <= i < options.len() ==> (#[trigger] options[i]).values.len() <= 1 || plural.contains(
            options[i].name,
        )
}

/// The zone that a section describes. A policy that is absent is the default one; a policy that is there
/// has to be understood.
pub open spec fn zone_value(
    s: UciSectionView,
    defaults: Option<ZoneDefaults>,
    ownership: ObjectOwnership,
) -> Option<FirewallZoneView> {
    let d = or_else(
        defaults,
        ZoneDefaults {
            input: FirewallVerdict::Reject,
            output: FirewallVerdict::Reject,
            forward: FirewallVerdict::Reject,
        },
    );
    match (
        s.scalar("name"@),
        enabled_option(s),
        policy_option(s, "input"@),
        policy_option(s, "output"@),
        policy_option(s, "forward"@),
        switch_option(s, "masq"@),
        switch_option(s, "mtu_fix"@),
    ) {
        (
            Some(id),
            Some(enabled),
            Some(input),
            Some(output),
            Some(forward),
            Some(masq),
            Some(mtu),
        ) => Some(
            FirewallZoneView {
                id,
                ownership,
                enabled,
                networks: s.values("network"@),
                input: or_else(input, d.input),
                output: or_else(output, d.output),
                forward: or_else(forward, d.forward),
                masquerade: or_else(masq, false),
                mtu_fix: or_else(mtu, false),
            },
        ),
        _ => None,
    }
}

pub open spec fn forwarding_value(s: UciSectionView, ownership: ObjectOwnership) -> Option<
    FirewallForwardingView,
> {
    match (s.scalar("src"@), s.scalar("dest"@), enabled_option(s)) {
        (Some(source_zone), Some(destination_zone), Some(enabled)) => Some(
            FirewallForwardingView {
                id: or_else(s.scalar("name"@), source_zone + "-"@ + destination_zone),
                ownership,
                enabled,
                source_zone,
                destination_zone,
            },
        ),
        _ => None,
    }
}

/// The rate limit of a rule; nothing where it is malformed or only its burst is given.
pub open spec fn limit_value(s: UciSectionView) -> Option<Option<FirewallRateLimit>> {
    match s.scalar("limit"@) {
        None => if s.has("limit_burst"@) {
            None
        } else {
            Some(None)
        },
        Some(v) => if !ends(v, "/second"@) {
            None
        } else {
            match (
                u32_value(v.take(v.len() - 7)),
                match s.scalar("limit_burst"@) {
                    Some(b) => u32_value(b),
                    None => None,
                },
            ) {
                (Some(packets_per_second), Some(burst)) => Some(
                    Some(FirewallRateLimit { packets_per_second, burst }),
                ),
                _ => None,
            }
        },
    }
}

pub open spec fn filter_rule_value(s: UciSectionView, ownership: ObjectOwnership) -> Option<
    FirewallFilterRuleView,
> {
    let placed = match common_matches(s) {
        Some(m) => directed(s, m),
        None => None,
    };
    match (
        placed,
        verdict_option(s, "target"@),
        limit_value(s),
        rule_id(s, "rule"@),
        enabled_option(s),
    ) {
        (Some((direction, matches)), Some(verdict), Some(rate_limit), Some(id), Some(enabled)) => Some(
            FirewallFilterRuleView {
                id,
                ownership,
                enabled,
                direction,
                matches,
                verdict,
                reject_with: None,
                rate_limit,
                log: match s.scalar("log"@) {
                    Some(prefix) => Some(FirewallLogView { prefix, level: FirewallLogLevel::Info }),
                    None => None,
                },
                order: s.order,
            },
        ),
        _ => None,
    }
}

pub open spec fn entries_value(s: UciSectionView) -> Option<Seq<FirewallSetEntryView>> {
    match s.scalar("match"@) {
        None => None,
        Some(m) => if m == "src_net"@ {
            map_all(s.values("entry"@), |r: Seq<char>| NetworkEntries::value(r))
        } else if m == "src_mac"@ {
            map_all(s.values("entry"@), |r: Seq<char>| MacEntries::value(r))
        } else if m == "src_port"@ {
            map_all(s.values("entry"@), |r: Seq<char>| PortEntries::value(r))
        } else {
            None
        },
    }
}

pub open spec fn address_set_value(s: UciSectionView, ownership: ObjectOwnership) -> Option<
    FirewallAddressSetView,
> {
    match (entries_value(s), s.scalar("name"@), enabled_option(s), family_option(s)) {
        (Some(entries), Some(id), Some(enabled), Some(family)) => Some(
            FirewallAddressSetView { id, ownership, enabled, family, entries },
        ),
        _ => None,
    }
}

/// What a translation rule does: its kind, the destination it matches and what it translates to.
pub open spec fn translation_value(s: UciSectionView, m: FirewallMatchView) -> Option<
    (FirewallNatKind, FirewallMatchView, Option<IpAddr>, Option<PortRange>),
> {
    match s.scalar("target"@) {
        None => None,
        Some(raw) => {
            let target = lower_all(raw);
            if s.section_type == "redirect"@ && target == "dnat"@ {
                match (
                    networks_option(s, "src_dip"@),
                    ports_option(s, "src_dport"@),
                    address_option(s, "dest_ip"@),
                    port_option(s, "dest_port"@),
                ) {
                    (Some(networks), Some(ports), Some(address), Some(port)) => if networks.len()
                        <= 1 && ports.len() <= 1 {
                        Some(
                            (
                                if address is Some {
                                    FirewallNatKind::DestinationNat
                                } else {
                                    FirewallNatKind::Redirect
                                },
                                FirewallMatchView {
                                    destination_networks: networks,
                                    destination_ports: ports,
                                    ..m
                                },
                                address,
                                port,
                            ),
                        )
                    } else {
                        None
                    },
                    _ => None,
                }
            } else if s.section_type == "nat"@ && (target == "snat"@ || target == "masquerade"@) {
                match (address_option(s, "snat_ip"@), port_option(s, "snat_port"@)) {
                    (Some(address), Some(port)) => Some(
                        (
                            if target == "snat"@ {
                                FirewallNatKind::SourceNat
                            } else {
                                FirewallNatKind::Masquerade
                            },
                            m,
                            address,
                            port,
                        ),
                    ),
                    _ => None,
                }
            } else {
                None
            }
        },
    }
}

pub open spec fn is_single(m: FirewallMatchView) -> bool {
    m.source_networks.len() <= 1 && m.source_ports.len() <= 1 && m.source_zones.len() <= 1
        && m.destination_zones.len() <= 1 && m.source_sets.len() + m.destination_sets.len() <= 1
}

pub open spec fn nat_rule_value(s: UciSectionView, ownership: ObjectOwnership) -> Option<
    FirewallNatRuleView,
> {
    match common_matches(s) {
        None => None,
        Some(m) => if !is_single(m) {
            None
        } else {
            match (translation_value(s, m), rule_id(s, s.section_type), enabled_option(s)) {
                (
                    Some((kind, matches, translation_address, translation_port)),
                    Some(id),
                    Some(enabled),
                ) => Some(
                    FirewallNatRuleView {
                        id,
                        ownership,
                        enabled,
                        kind,
                        matches,
                        translation_address,
                        translation_port,
                        order: s.order,
                    },
                ),
                _ => None,
            }
        },
    }
}

/// The typed object that a section describes, if the typed model can hold all of it.
pub open spec fn firewall_object_value(s: UciSectionView, defaults: Option<ZoneDefaults>) -> Option<
    FirewallObjectView,
> {
    if !has_plurality(s.options, plural_options(s.section_type)) {
        None
    } else {
        match ownership_value(s) {
            None => None,
            Some(ownership) => if s.section_type == "zone"@ {
                match zone_value(s, defaults, ownership) {
                    Some(v) => Some(FirewallObjectView::Zone(v)),
                    None => None,
                }
            } else if s.section_type == "forwarding"@ {
                match forwarding_value(s, ownership) {
                    Some(v) => Some(FirewallObjectView::Forwarding(v)),
                    None => None,
                }
            } else if s.section_type == "rule"@ {
                match filter_rule_value(s, ownership) {
                    Some(v) => Some(FirewallObjectView::FilterRule(v)),
                    None => None,
                }
            } else if s.section_type == "ipset"@ {
                match address_set_value(s, ownership) {
                    Some(v) => Some(FirewallObjectView::AddressSet(v)),
                    None => None,
                }
            } else if s.section_type == "redirect"@ || s.section_type == "nat"@ {
                match nat_rule_value(s, ownership) {
                    Some(v) => Some(FirewallObjectView::NatRule(v)),
                    None => None,
                }
            } else {
                None
            },
        }
    }
}

pub open spec fn is_firewall_type(t: Seq<char>) -> bool {
    t == "zone"@ || t == "forwarding"@ || t == "rule"@ || t == "ipset"@ || t == "redirect"@ || t
        == "nat"@
}

/// The index of the first section of a type from `i` on, or the number of sections.
pub open spec fn type_from(sections: Seq<UciSectionView>, t: Seq<char>, i: int) -> int
    decreases sections.len() - i,
{
    if i < 0 || i >= sections.len() {
        sections.len() as int
    } else if sections[i].section_type == t {
        i
    } else {
        type_from(sections, t, i + 1)
    }
}

/// The default verdicts of a package, which it may state once.
pub open spec fn defaults_value(sections: Seq<UciSectionView>) -> Result<
    Option<ZoneDefaults>,
    FirewallRenderErrorView,
> {
    let at = type_from(sections, "defaults"@, 0);
    if at >= sections.len() {
        Ok(None)
    } else if type_from(sections, "defaults"@, at + 1) < sections.len() {
        Err(FirewallRenderErrorView::AmbiguousInventory)
    } else {
        let s = sections[at];
        match (
            verdict_option(s, "input"@),
            verdict_option(s, "output"@),
            verdict_option(s, "forward"@),
        ) {
            (Some(input), Some(output), Some(forward)) => Ok(
                Some(ZoneDefaults { input, output, forward }),
            ),
            _ => Err(FirewallRenderErrorView::AmbiguousInventory),
        }
    }
}

/// The index of the first object of a kind and an identity from `i` on, or the number of objects.
pub open spec fn object_from(
    objects: Seq<FirewallObjectView>,
    kind: Seq<char>,
    id: Seq<char>,
    i: int,
) -> int
    decreases objects.len() - i,
{
    if i < 0 || i >= objects.len() {
        objects.len() as int
    } else if objects[i].kind() == kind && objects[i].id() == id {
        i
    } else {
        object_from(objects, kind, id, i + 1)
    }
}

pub open spec fn is_managed(s: UciSectionView) -> bool {
    starts(s.selector, "mbed_"@)
}

/// A section that cannot be represented: refused if the agent manages it, else left alone.
pub open spec fn left_alone(state: FirewallScanView, s: UciSectionView) -> Result<
    FirewallScanView,
    FirewallRenderErrorView,
> {
    if is_managed(s) {
        Err(FirewallRenderErrorView::UnsupportedManagedSection(s.selector))
    } else {
        Ok(FirewallScanView { read_only: state.read_only.push(s.selector), ..state })
    }
}

pub open spec fn firewall_binding(s: UciSectionView, o: FirewallObjectView) -> OpenWrtObjectBindingView {
    OpenWrtObjectBindingView {
        kind: o.kind(),
        id: o.id(),
        section_type: s.section_type,
        section: s.selector,
        present_options: sorted_texts(s.option_names()),
    }
}

/// What a section adds to a scan, given whether the object model accepts its object.
pub open spec fn firewall_step(
    state: FirewallScanView,
    s: UciSectionView,
    defaults: Option<ZoneDefaults>,
    valid: bool,
) -> Result<FirewallScanView, FirewallRenderErrorView> {
    if s.section_type == "defaults"@ {
        Ok(state)
    } else if !is_firewall_type(s.section_type) {
        left_alone(state, s)
    } else {
        match firewall_object_value(s, defaults) {
            None => left_alone(state, s),
            Some(o) => if is_managed(s) && o.ownership() != ObjectOwnership::AgentOwned {
                Err(FirewallRenderErrorView::UnsupportedManagedSection(s.selector))
            } else if !valid || s.options.len() > MAX_BINDING_OPTIONS {
                left_alone(state, s)
            } else if object_from(state.objects, o.kind(), o.id(), 0) < state.objects.len() {
                Err(FirewallRenderErrorView::DuplicateInventoryObject)
            } else {
                Ok(
                    FirewallScanView {
                        objects: state.objects.push(o),
                        bindings: state.bindings.push(firewall_binding(s, o)),
                        ..state
                    },
                )
            },
        }
    }
}

/// What the sections from `i` on add to a scan.
pub open spec fn firewall_scan(
    state: FirewallScanView,
    sections: Seq<UciSectionView>,
    defaults: Option<ZoneDefaults>,
    valid: Seq<bool>,
    i: int,
) -> Result<FirewallScanView, FirewallRenderErrorView>
    decreases sections.len() - i,
{
    if i < 0 || i >= sections.len() {
        Ok(state)
    } else {
        match firewall_step(state, sections[i], defaults, verdict_at(valid, i)) {
            Err(e) => Err(e),
            Ok(next) => firewall_scan(next, sections, defaults, valid, i + 1),
        }
    }
}

pub open spec fn empty_scan() -> FirewallScanView {
    FirewallScanView { objects: Seq::empty(), bindings: Seq::empty(), read_only: Seq::empty() }
}

pub open spec fn selectors(sections: Seq<UciSectionView>) -> Seq<Seq<char>> {
    Seq::new(sections.len(), |i: int| sections[i].selector)
}

/// The snapshot that a package makes, given the verdicts of the object model on the object of each
/// section.
pub open spec fn firewall_snapshot(text: Seq<char>, valid: Seq<bool>) -> Result<
    OpenWrtFirewallInventorySnapshotView,
    FirewallRenderErrorView,
> {
    match package_sections(text, "firewall"@, false) {
        Err(e) => Err(e),
        Ok(sections) => match defaults_value(sections) {
            Err(e) => Err(e),
            Ok(defaults) => match firewall_scan(empty_scan(), sections, defaults, valid, 0) {
                Err(e) => Err(e),
                Ok(state) => Ok(
                    OpenWrtFirewallInventorySnapshotView {
                        inventory: FirewallInventoryView { objects: state.objects },
                        bindings: state.bindings,
                        occupied_sections: selectors(sections),
                        read_only_sections: state.read_only,
                    },
                ),
            },
        },
    }
}

/// Reads a protocol.
pub struct ProtocolWords;

impl Reader for ProtocolWords {
    type Out = FirewallProtocol;

    open spec fn value(s: Seq<char>) -> Option<FirewallProtocol> {
        protocol_word(s)
    }

    fn read(s: &str) -> (r: Option<FirewallProtocol>) {
        if same(s, "tcp") {
            Some(FirewallProtocol::Tcp)
        } else if same(s, "udp") {
            Some(FirewallProtocol::Udp)
        } else if same(s, "icmp") {
            Some(FirewallProtocol::Icmp)
        } else if same(s, "icmpv6") || same(s, "ipv6-icmp") {
            Some(FirewallProtocol::Icmpv6)
        } else if same(s, "esp") {
            Some(FirewallProtocol::Esp)
        } else if same(s, "ah") {
            Some(FirewallProtocol::Ah)
        } else if same(s, "gre") {
            Some(FirewallProtocol::Gre)
        } else {
            None
        }
    }
}

fn parse_loose_network(s: &str) -> (r: Option<IpNetwork>)
    ensures
        r == loose_network(s@),
{
    let cs = chars_of(s);
    let k: usize = find(cs.as_slice(), '/', 0);
    if k < cs.len() {
        assert(s@[k as int] == '/');
        parse_network(cs.as_slice())
    } else {
        match parse_address(cs.as_slice()) {
            Some(address) => {
                let prefix_len: u8 = if address.is_ipv4() {
                    32
                } else {
                    128
                };
                Some(IpNetwork { address, prefix_len })
            },
            None => None,
        }
    }
}

/// Reads an address with a prefix length, or a single address.
pub struct LooseNetworks;

impl Reader for LooseNetworks {
    type Out = IpNetwork;

    open spec fn value(s: Seq<char>) -> Option<IpNetwork> {
        loose_network(s)
    }

    fn read(s: &str) -> (r: Option<IpNetwork>) {
        parse_loose_network(s)
    }
}

fn parse_port(s: &str) -> (r: Option<PortRange>)
    ensures
        r == port_value(s@),
{
    let cs = chars_of(s);
    match cut(cs.as_slice(), '-') {
        Some((a, b)) => match (read_u16(string_of(a).as_str()), read_u16(string_of(b).as_str())) {
            (Some(start), Some(end)) => Some(PortRange { start, end }),
            _ => None,
        },
        None => match read_u16(s) {
            Some(p) => Some(PortRange { start: p, end: p }),
            None => None,
        },
    }
}

/// Reads a port, or a range of ports.
pub struct Ports;

impl Reader for Ports {
    type Out = PortRange;

    open spec fn value(s: Seq<char>) -> Option<PortRange> {
        port_value(s)
    }

    fn read(s: &str) -> (r: Option<PortRange>) {
        parse_port(s)
    }
}

/// Puts a hardware address into lower case.
pub fn normalize_mac(value: &str) -> (r: Option<String>)
    ensures
        opt(r) == mac_value(value@),
{
    let normalized = lower_text(value);
    let parts = split_at_each(chars_of(normalized.as_str()).as_slice(), ':');
    if parts.len() != 6 {
        return None;
    }
    let mut i: usize = 0;
    while i < 6
        invariant
            i <= 6,
            parts@.len() == 6,
            normalized@ == lower_all(value@),
            views(parts@) == split(normalized@, ':'),
            forall|j: int|
                0 <= j < i ==> (#[trigger] views(parts@)[j]).len() == 2 && is_hex(
                    views(parts@)[j][0],
                ) && is_hex(views(parts@)[j][1]),
        decreases 6 - i,
    {
        assert(views(parts@)[i as int] == parts@[i as int]@);
        if parts[i].len() != 2 || !hex_digit(parts[i][0]) || !hex_digit(parts[i][1]) {
            assert(!is_mac(normalized@));
            return None;
        }
        i = i + 1;
    }
    Some(normalized)
}

/// Reads a hardware address.
pub struct Macs;

impl Reader for Macs {
    type Out = String;

    open spec fn value(s: Seq<char>) -> Option<Seq<char>> {
        mac_value(s)
    }

    fn read(s: &str) -> (r: Option<String>) {
        normalize_mac(s)
    }
}

pub struct NetworkEntries;

impl Reader for NetworkEntries {
    type Out = FirewallSetEntry;

    open spec fn value(s: Seq<char>) -> Option<FirewallSetEntryView> {
        match loose_network(s) {
            Some(n) => Some(FirewallSetEntryView::Network(n)),
            None => None,
        }
    }

    fn read(s: &str) -> (r: Option<FirewallSetEntry>) {
        match parse_loose_network(s) {
            Some(n) => Some(FirewallSetEntry::Network(n)),
            None => None,
        }
    }
}

pub struct MacEntries;

impl Reader for MacEntries {
    type Out = FirewallSetEntry;

    open spec fn value(s: Seq<char>) -> Option<FirewallSetEntryView> {
        match mac_value(s) {
            Some(n) => Some(FirewallSetEntryView::Mac(n)),
            None => None,
        }
    }

    fn read(s: &str) -> (r: Option<FirewallSetEntry>) {
        match normalize_mac(s) {
            Some(n) => Some(FirewallSetEntry::Mac(n)),
            None => None,
        }
    }
}

pub struct PortEntries;

impl Reader for PortEntries {
    type Out = FirewallSetEntry;

    open spec fn value(s: Seq<char>) -> Option<FirewallSetEntryView> {
        match port_value(s) {
            Some(n) => Some(FirewallSetEntryView::Port(n)),
            None => None,
        }
    }

    fn read(s: &str) -> (r: Option<FirewallSetEntry>) {
        match parse_port(s) {
            Some(n) => Some(FirewallSetEntry::Port(n)),
            None => None,
        }
    }
}

fn verdict_of_word(s: &str) -> (r: Option<FirewallVerdict>)
    ensures
        r == verdict_word(s@),
{
    let l = lower_text(s);
    if same(l.as_str(), "accept") {
        Some(FirewallVerdict::Accept)
    } else if same(l.as_str(), "drop") {
        Some(FirewallVerdict::Drop)
    } else if same(l.as_str(), "reject") {
        Some(FirewallVerdict::Reject)
    } else {
        None
    }
}

fn verdict(section: &UciSection, option: &str) -> (r: Option<FirewallVerdict>)
    ensures
        r == verdict_option(section@, option@),
{
    match section.scalar(option) {
        Some(v) => verdict_of_word(v),
        None => None,
    }
}

fn policy(section: &UciSection, option: &str) -> (r: Option<Option<FirewallVerdict>>)
    ensures
        r == policy_option(section@, option@),
{
    match section.get(option) {
        None => Some(None),
        Some(v) => {
            if v.len() != 1 {
                return None;
            }
            assert(views(v@)[0] == v@[0]@);
            match verdict_of_word(v[0].as_str()) {
                Some(x) => Some(Some(x)),
                None => None,
            }
        },
    }
}

fn boolean(section: &UciSection, option: &str) -> (r: Option<Option<bool>>)
    ensures
        r == switch_option(section@, option@),
{
    match section.get(option) {
        None => Some(None),
        Some(v) => {
            if v.len() != 1 {
                return None;
            }
            assert(views(v@)[0] == v@[0]@);
            match truth_of(v[0].as_str()) {
                Some(b) => Some(Some(b)),
                None => None,
            }
        },
    }
}

fn enabled(section: &UciSection) -> (r: Option<bool>)
    ensures
        r == enabled_option(section@),
{
    match boolean(section, "enabled") {
        Some(b) => Some(or_bool(b, true)),
        None => None,
    }
}

fn parse_family(value: &str) -> (r: Option<FirewallFamily>)
    ensures
        r == family_word(value@),
{
    if same(value, "any") || same(value, "*") {
        Some(FirewallFamily::Any)
    } else if same(value, "ipv4") || same(value, "4") {
        Some(FirewallFamily::Ipv4)
    } else if same(value, "ipv6") || same(value, "6") {
        Some(FirewallFamily::Ipv6)
    } else {
        None
    }
}

fn protocols(section: &UciSection) -> (r: Option<Vec<FirewallProtocol>>)
    ensures
        olist(r) == protocols_option(section@),
{
    let values = section.values("proto");
    let ghost all = section@.values("proto"@);
    let mut found: Vec<String> = Vec::new();
    let mut i: usize = 0;
    while i < values.len()
        invariant
            i <= values@.len(),
            all == views(values@),
            all_words(views(found@), all, i as int) == all_words(Seq::empty(), all, 0),
        decreases values@.len() - i,
    {
        assert(all[i as int] == values@[i as int]@);
        let mut more = split_words(chars_of(values[i].as_str()).as_slice());
        let ghost before = views(found@);
        let ghost extra = views(more@);
        let ghost f0 = found@;
        let ghost m0 = more@;
        found.append(&mut more);
        assert(found@ =~= f0 + m0);
        assert(views(found@) =~= before + extra) by {
            assert forall|k: int| 0 <= k < found@.len() implies #[trigger] views(found@)[k] == (
            before + extra)[k] by {
                if k < f0.len() {
                    assert(before[k] == f0[k]@);
                } else {
                    assert(extra[k - f0.len()] == m0[k - f0.len()]@);
                }
            }
        }
        i = i + 1;
    }
    read_all::<ProtocolWords>(found.as_slice())
}

fn optional_ip(section: &UciSection, option: &str) -> (r: Option<Option<IpAddr>>)
    ensures
        r == address_option(section@, option@),
{
    match section.get(option) {
        None => Some(None),
        Some(v) => {
            if v.len() != 1 {
                return None;
            }
            assert(views(v@)[0] == v@[0]@);
            match parse_address(chars_of(v[0].as_str()).as_slice()) {
                Some(b) => Some(Some(b)),
                None => None,
            }
        },
    }
}

fn optional_single_port(section: &UciSection, option: &str) -> (r: Option<Option<PortRange>>)
    ensures
        r == port_option(section@, option@),
{
    match section.get(option) {
        None => Some(None),
        Some(v) => {
            if v.len() != 1 {
                return None;
            }
            assert(views(v@)[0] == v@[0]@);
            match parse_port(v[0].as_str()) {
                Some(b) => Some(Some(b)),
                None => None,
            }
        },
    }
}

fn listed(o: Option<&str>) -> (r: Vec<String>)
    ensures
        views(r@) == list_of(text_view(o)),
{
    let mut r: Vec<String> = Vec::new();
    match o {
        Some(v) => r.push(v.to_owned()),
        None => {},
    }
    assert(views(r@) =~= list_of(text_view(o)));
    r
}

fn named_set(section: &UciSection) -> (r: Option<Option<(String, bool)>>)
    ensures
        match r {
            Some(Some((name, source))) => set_option(section@) == Some(Some((name@, source))),
            Some(None) => set_option(section@) == Some(None::<(Seq<char>, bool)>),
            None => set_option(section@) is None,
        },
{
    match section.scalar("ipset") {
        None => Some(None),
        Some(v) => {
            let w = split_words(chars_of(v).as_slice());
            if w.len() != 2 {
                return None;
            }
            assert(views(w@)[0] == w@[0]@ && views(w@)[1] == w@[1]@);
            if same(w[1].as_str(), "src") {
                Some(Some((w[0].clone(), true)))
            } else if same(w[1].as_str(), "dest") {
                Some(Some((w[0].clone(), false)))
            } else {
                None
            }
        },
    }
}

fn decode_common_matches(section: &UciSection) -> (r: Option<FirewallMatch>)
    ensures
        opt(r) == common_matches(section@),
{
    let named = match named_set(section) {
        Some(n) => n,
        None => {
            return None;
        },
    };
    match (
        parse_family(or_text(section.scalar("family"), "any")),
        read_all::<LooseNetworks>(section.values("src_ip")),
        read_all::<LooseNetworks>(section.values("dest_ip")),
        read_all::<Macs>(section.values("src_mac")),
        protocols(section),
        read_all::<Ports>(section.values("src_port")),
        read_all::<Ports>(section.values("dest_port")),
        read_all::<Bytes>(section.values("icmp_type")),
    ) {
        (
            Some(family),
            Some(source_networks),
            Some(destination_networks),
            Some(source_macs),
            Some(protocols),
            Some(source_ports),
            Some(destination_ports),
            Some(icmp_types),
        ) => {
            let mut source_sets: Vec<String> = Vec::new();
            let mut destination_sets: Vec<String> = Vec::new();
            match named {
                Some((name, source)) => {
                    if source {
                        source_sets.push(name);
                    } else {
                        destination_sets.push(name);
                    }
                },
                None => {},
            }
            let m = FirewallMatch {
                family,
                source_zones: listed(section.scalar("src")),
                destination_zones: listed(section.scalar("dest")),
                input_interfaces: Vec::new(),
                output_interfaces: Vec::new(),
                source_networks,
                destination_networks,
                source_macs,
                protocols,
                source_ports,
                destination_ports,
                icmp_types,
                conntrack_states: Vec::new(),
                source_sets,
                destination_sets,
            };
            assert(common_matches(section@) is Some);
            assert(m@ =~= common_matches(section@)->Some_0);
            Some(m)
        },
        _ => None,
    }
}

fn rule_direction(section: &UciSection, matches: FirewallMatch) -> (r: Option<
    (FirewallDirection, FirewallMatch),
>)
    ensures
        match r {
            Some((d, m)) => directed(section@, matches@) == Some((d, m@)),
            None => directed(section@, matches@) is None,
        },
{
    let mut m = matches;
    match (section.scalar("device"), section.scalar("direction")) {
        (Some(device), Some(d)) => {
            if same(d, "in") {
                m.input_interfaces.push(device.to_owned());
                Some((FirewallDirection::Input, m))
            } else if same(d, "out") {
                m.output_interfaces.push(device.to_owned());
                Some((FirewallDirection::Output, m))
            } else {
                None
            }
        },
        (None, None) => {
            if m.destination_zones.len() == 0 {
                Some((FirewallDirection::Input, m))
            } else if m.source_zones.len() == 0 {
                Some((FirewallDirection::Output, m))
            } else {
                Some((FirewallDirection::Forward, m))
            }
        },
        _ => None,
    }
}

fn short_digest(s: &[char]) -> (r: bool)
    ensures
        r == is_short_digest(s@),
{
    if s.len() != 16 {
        return false;
    }
    let mut i: usize = 0;
    while i < s.len()
        invariant
            i <= s@.len(),
            s@.len() == 16,
            forall|j: int| 0 <= j < i ==> is_hex(#[trigger] s@[j]),
        decreases s@.len() - i,
    {
        if !hex_digit(s[i]) {
            return false;
        }
        i = i + 1;
    }
    true
}

fn section_ownership(section: &UciSection) -> (r: Option<ObjectOwnership>)
    ensures
        r == ownership_value(section@),
{
    if !has_prefix(section.selector.as_str(), "mbed_") {
        return Some(ObjectOwnership::PlatformNative);
    }
    let t = section.section_type.as_str();
    let marker = if same(t, "zone") {
        "mbed_z_"
    } else if same(t, "forwarding") {
        "mbed_f_"
    } else if same(t, "rule") {
        "mbed_r_"
    } else if same(t, "ipset") {
        "mbed_s_"
    } else if same(t, "redirect") || same(t, "nat") {
        "mbed_n_"
    } else {
        return None;
    };
    let cs = chars_of(section.selector.as_str());
    if !begins(cs.as_slice(), marker) {
        return None;
    }
    let n: usize = chars_of(marker).len();
    let rest = piece(cs.as_slice(), n, cs.len());
    assert(rest@ =~= section@.selector.skip(marker@.len() as int));
    if short_digest(rest) {
        Some(ObjectOwnership::AgentOwned)
    } else {
        None
    }
}

/// The name of an unnamed section, by its position.
pub fn fallback_id(section: &UciSection, kind: &str) -> (r: Option<String>)
    ensures
        opt(r) == position_id(section@, kind@),
{
    match index_in_selector(section.selector.as_str(), kind) {
        Some(index) => {
            let mut r = "platform-".to_owned();
            r.append(kind);
            r.append("-");
            r.append(index.as_str());
            Some(r)
        },
        None => None,
    }
}

fn object_id(section: &UciSection, kind: &str) -> (r: Option<String>)
    ensures
        opt(r) == rule_id(section@, kind@),
{
    match section.scalar("name") {
        Some(v) => Some(v.to_owned()),
        None => fallback_id(section, kind),
    }
}

fn plural_only(section: &UciSection, plural: &[&'static str]) -> (r: bool)
    ensures
        r == has_plurality(section@.options, views(plural@)),
{
    let mut i: usize = 0;
    while i < section.options.len()
        invariant
            i <= section.options@.len(),
            forall|j: int|
                0 <= j < i ==> (#[trigger] section@.options[j]).values.len() <= 1 || views(
                    plural@,
                ).contains(section@.options[j].name),
        decreases section.options@.len() - i,
    {
        assert(section@.options[i as int] == section.options@[i as int]@);
        if section.options[i].values.len() > 1 && !among(
            plural,
            section.options[i].name.as_str(),
        ) {
            return false;
        }
        i = i + 1;
    }
    true
}

fn valid_cardinality(section: &UciSection) -> (r: bool)
    ensures
        r == has_plurality(section@.options, plural_options(section@.section_type)),
{
    let t = section.section_type.as_str();
    if same(t, "zone") {
        let names = ["network"];
        assert(views(names@) =~= plural_options(section@.section_type));
        plural_only(section, &names)
    } else if same(t, "rule") {
        let names = ["src_ip", "src_mac", "src_port", "dest_ip", "dest_port", "icmp_type"];
        assert(views(names@) =~= plural_options(section@.section_type));
        plural_only(section, &names)
    } else if same(t, "ipset") {
        let names = ["entry"];
        assert(views(names@) =~= plural_options(section@.section_type));
        plural_only(section, &names)
    } else if same(t, "redirect") {
        let names = ["src_mac"];
        assert(views(names@) =~= plural_options(section@.section_type));
        plural_only(section, &names)
    } else {
        let names: [&'static str; 0] = [];
        assert(views(names@) =~= plural_options(section@.section_type));
        plural_only(section, &names)
    }
}

fn or_verdict(o: Option<FirewallVerdict>, default: FirewallVerdict) -> (r: FirewallVerdict)
    ensures
        r == or_else(o, default),
{
    match o {
        Some(v) => v,
        None => default,
    }
}

fn decode_zone(
    section: &UciSection,
    defaults: Option<ZoneDefaults>,
    ownership: ObjectOwnership,
) -> (r: Option<FirewallZone>)
    ensures
        opt(r) == zone_value(section@, defaults, ownership),
{
    let d = match defaults {
        Some(d) => d,
        None => ZoneDefaults {
            input: FirewallVerdict::Reject,
            output: FirewallVerdict::Reject,
            forward: FirewallVerdict::Reject,
        },
    };
    match (
        section.scalar("name"),
        enabled(section),
        policy(section, "input"),
        policy(section, "output"),
        policy(section, "forward"),
        boolean(section, "masq"),
        boolean(section, "mtu_fix"),
    ) {
        (
            Some(id),
            Some(enabled),
            Some(input),
            Some(output),
            Some(forward),
            Some(masq),
            Some(mtu),
        ) => Some(
            FirewallZone {
                id: id.to_owned(),
                ownership,
                enabled,
                networks: values_of(section, "network"),
                input: or_verdict(input, d.input),
                output: or_verdict(output, d.output),
                forward: or_verdict(forward, d.forward),
                masquerade: or_bool(masq, false),
                mtu_fix: or_bool(mtu, false),
            },
        ),
        _ => None,
    }
}

fn decode_forwarding(section: &UciSection, ownership: ObjectOwnership) -> (r: Option<
    FirewallForwarding,
>)
    ensures
        opt(r) == forwarding_value(section@, ownership),
{
    match (section.scalar("src"), section.scalar("dest"), enabled(section)) {
        (Some(source), Some(destination), Some(enabled)) => {
            let id = match section.scalar("name") {
                Some(n) => n.to_owned(),
                None => {
                    let mut t = source.to_owned();
                    t.append("-");
                    t.append(destination);
                    t
                },
            };
            Some(
                FirewallForwarding {
                    id,
                    ownership,
                    enabled,
                    source_zone: source.to_owned(),
                    destination_zone: destination.to_owned(),
                },
            )
        },
        _ => None,
    }
}

fn decode_limit(section: &UciSection) -> (r: Option<Option<FirewallRateLimit>>)
    ensures
        r == limit_value(section@),
{
    match section.scalar("limit") {
        None => {
            if section.has("limit_burst") {
                None
            } else {
                Some(None)
            }
        },
        Some(v) => {
            let cs = chars_of(v);
            proof {
                reveal_strlit("/second");
            }
            if cs.len() < 7 || !chars_are(piece(cs.as_slice(), cs.len() - 7, cs.len()), "/second") {
                proof {
                    if cs@.len() >= 7 {
                        assert(cs@.skip(cs@.len() - 7) =~= cs@.subrange(
                            cs@.len() - 7,
                            cs@.len() as int,
                        ));
                    }
                }
                return None;
            }
            assert(cs@.skip(cs@.len() - 7) =~= cs@.subrange(cs@.len() - 7, cs@.len() as int));
            let head = string_of(piece(cs.as_slice(), 0, cs.len() - 7));
            assert(head@ =~= v@.take(v@.len() - 7));
            let burst = match section.scalar("limit_burst") {
                Some(b) => read_u32(b),
                None => None,
            };
            match (read_u32(head.as_str()), burst) {
                (Some(packets_per_second), Some(burst)) => Some(
                    Some(FirewallRateLimit { packets_per_second, burst }),
                ),
                _ => None,
            }
        },
    }
}

fn decode_filter_rule(section: &UciSection, ownership: ObjectOwnership) -> (r: Option<
    FirewallFilterRule,
>)
    ensures
        opt(r) == filter_rule_value(section@, ownership),
{
    let common = match decode_common_matches(section) {
        Some(m) => m,
        None => {
            return None;
        },
    };
    let (direction, matches) = match rule_direction(section, common) {
        Some(p) => p,
        None => {
            return None;
        },
    };
    match (
        verdict(section, "target"),
        decode_limit(section),
        object_id(section, "rule"),
        enabled(section),
    ) {
        (Some(verdict), Some(rate_limit), Some(id), Some(enabled)) => {
            let log = match section.scalar("log") {
                Some(prefix) => Some(
                    FirewallLog { prefix: prefix.to_owned(), level: FirewallLogLevel::Info },
                ),
                None => None,
            };
            Some(
                FirewallFilterRule {
                    id,
                    ownership,
                    enabled,
                    direction,
                    matches,
                    verdict,
                    reject_with: None,
                    rate_limit,
                    log,
                    order: section.order,
                },
            )
        },
        _ => None,
    }
}

fn decode_entries(section: &UciSection) -> (r: Option<Vec<FirewallSetEntry>>)
    ensures
        olist(r) == entries_value(section@),
{
    match section.scalar("match") {
        None => None,
        Some(m) => {
            if same(m, "src_net") {
                read_all::<NetworkEntries>(section.values("entry"))
            } else if same(m, "src_mac") {
                read_all::<MacEntries>(section.values("entry"))
            } else if same(m, "src_port") {
                read_all::<PortEntries>(section.values("entry"))
            } else {
                None
            }
        },
    }
}

fn decode_address_set(section: &UciSection, ownership: ObjectOwnership) -> (r: Option<
    FirewallAddressSet,
>)
    ensures
        opt(r) == address_set_value(section@, ownership),
{
    match (
        decode_entries(section),
        section.scalar("name"),
        enabled(section),
        parse_family(or_text(section.scalar("family"), "any")),
    ) {
        (Some(entries), Some(id), Some(enabled), Some(family)) => Some(
            FirewallAddressSet { id: id.to_owned(), ownership, enabled, family, entries },
        ),
        _ => None,
    }
}

fn decode_translation(section: &UciSection, matches: FirewallMatch) -> (r: Option<
    (FirewallNatKind, FirewallMatch, Option<IpAddr>, Option<PortRange>),
>)
    ensures
        match r {
            Some((k, m, a, p)) => translation_value(section@, matches@) == Some((k, m@, a, p)),
            None => translation_value(section@, matches@) is None,
        },
{
    let target = match section.scalar("target") {
        Some(t) => lower_text(t),
        None => {
            return None;
        },
    };
    let t = section.section_type.as_str();
    if same(t, "redirect") && same(target.as_str(), "dnat") {
        match (
            read_all::<LooseNetworks>(section.values("src_dip")),
            read_all::<Ports>(section.values("src_dport")),
            optional_ip(section, "dest_ip"),
            optional_single_port(section, "dest_port"),
        ) {
            (Some(networks), Some(ports), Some(address), Some(port)) => {
                if networks.len() > 1 || ports.len() > 1 {
                    return None;
                }
                let kind = if address.is_some() {
                    FirewallNatKind::DestinationNat
                } else {
                    FirewallNatKind::Redirect
                };
                let mut m = matches;
                m.destination_networks = networks;
                m.destination_ports = ports;
                Some((kind, m, address, port))
            },
            _ => None,
        }
    } else if same(t, "nat") && (same(target.as_str(), "snat") || same(
        target.as_str(),
        "masquerade",
    )) {
        match (optional_ip(section, "snat_ip"), optional_single_port(section, "snat_port")) {
            (Some(address), Some(port)) => {
                let kind = if same(target.as_str(), "snat") {
                    FirewallNatKind::SourceNat
                } else {
                    FirewallNatKind::Masquerade
                };
                Some((kind, matches, address, port))
            },
            _ => None,
        }
    } else {
        None
    }
}

fn decode_nat_rule(section: &UciSection, ownership: ObjectOwnership) -> (r: Option<FirewallNatRule>)
    ensures
        opt(r) == nat_rule_value(section@, ownership),
{
    let common = match decode_common_matches(section) {
        Some(m) => m,
        None => {
            return None;
        },
    };
    if common.source_networks.len() > 1 || common.source_ports.len() > 1
        || common.source_zones.len() > 1 || common.destination_zones.len() > 1
        || common.source_sets.len() > 1 || common.destination_sets.len() > 1 || (
    common.source_sets.len() == 1 && common.destination_sets.len() == 1) {
        return None;
    }
    assert(is_single(common@));
    match (
        decode_translation(section, common),
        object_id(section, section.section_type.as_str()),
        enabled(section),
    ) {
        (
            Some((kind, matches, translation_address, translation_port)),
            Some(id),
            Some(enabled),
        ) => Some(
            FirewallNatRule {
                id,
                ownership,
                enabled,
                kind,
                matches,
                translation_address,
                translation_port,
                order: section.order,
            },
        ),
        _ => None,
    }
}

/// Decodes a firewall section.
pub fn decode_section(section: &UciSection, defaults: Option<ZoneDefaults>) -> (r: Option<
    FirewallObject,
>)
    ensures
        opt(r) == firewall_object_value(section@, defaults),
{
    if !valid_cardinality(section) {
        return None;
    }
    let ownership = match section_ownership(section) {
        Some(o) => o,
        None => {
            return None;
        },
    };
    let t = section.section_type.as_str();
    if same(t, "zone") {
        match decode_zone(section, defaults, ownership) {
            Some(v) => Some(FirewallObject::Zone(v)),
            None => None,
        }
    } else if same(t, "forwarding") {
        match decode_forwarding(section, ownership) {
            Some(v) => Some(FirewallObject::Forwarding(v)),
            None => None,
        }
    } else if same(t, "rule") {
        match decode_filter_rule(section, ownership) {
            Some(v) => Some(FirewallObject::FilterRule(v)),
            None => None,
        }
    } else if same(t, "ipset") {
        match decode_address_set(section, ownership) {
            Some(v) => Some(FirewallObject::AddressSet(v)),
            None => None,
        }
    } else if same(t, "redirect") || same(t, "nat") {
        match decode_nat_rule(section, ownership) {
            Some(v) => Some(FirewallObject::NatRule(v)),
            None => None,
        }
    } else {
        None
    }
}

fn find_type(sections: &Vec<UciSection>, t: &str, from: usize) -> (r: usize)
    requires
        from <= sections@.len(),
    ensures
        r == type_from(views(sections@), t@, from as int),
        r <= sections@.len(),
{
    let mut i: usize = from;
    while i < sections.len()
        invariant
            from <= i <= sections@.len(),
            type_from(views(sections@), t@, i as int) == type_from(
                views(sections@),
                t@,
                from as int,
            ),
        decreases sections@.len() - i,
    {
        if same(sections[i].section_type.as_str(), t) {
            return i;
        }
        i = i + 1;
    }
    i
}

fn zone_defaults(sections: &Vec<UciSection>) -> (r: Result<
    Option<ZoneDefaults>,
    FirewallRenderError,
>)
    ensures
        match r {
            Ok(d) => defaults_value(views(sections@)) == Ok::<
                Option<ZoneDefaults>,
                FirewallRenderErrorView,
            >(d),
            Err(e) => defaults_value(views(sections@)) == Err::<
                Option<ZoneDefaults>,
                FirewallRenderErrorView,
            >(e@),
        },
{
    let at: usize = find_type(sections, "defaults", 0);
    if at >= sections.len() {
        return Ok(None);
    }
    if find_type(sections, "defaults", at + 1) < sections.len() {
        return Err(FirewallRenderError::AmbiguousInventory);
    }
    let s = &sections[at];
    assert(views(sections@)[at as int] == s@);
    match (verdict(s, "input"), verdict(s, "output"), verdict(s, "forward")) {
        (Some(input), Some(output), Some(forward)) => Ok(
            Some(ZoneDefaults { input, output, forward }),
        ),
        _ => Err(FirewallRenderError::AmbiguousInventory),
    }
}

/// The index of the first object of a kind and an identity.
pub fn find_object(objects: &Vec<FirewallObject>, kind: &str, id: &str) -> (r: usize)
    ensures
        r == object_from(views(objects@), kind@, id@, 0),
        r <= objects@.len(),
{
    let mut i: usize = 0;
    while i < objects.len()
        invariant
            i <= objects@.len(),
            object_from(views(objects@), kind@, id@, i as int) == object_from(
                views(objects@),
                kind@,
                id@,
                0,
            ),
        decreases objects@.len() - i,
    {
        if same(objects[i].kind(), kind) && same(objects[i].id(), id) {
            return i;
        }
        i = i + 1;
    }
    i
}

/// The state behind a step that succeeded, or the error.
pub open spec fn scan_result(
    r: Result<(), FirewallRenderError>,
    state: FirewallScanView,
) -> Result<FirewallScanView, FirewallRenderErrorView> {
    match r {
        Ok(()) => Ok(state),
        Err(e) => Err(e@),
    }
}

fn leave_alone(state: &mut FirewallScan, section: &UciSection) -> (r: Result<
    (),
    FirewallRenderError,
>)
    ensures
        scan_result(r, final(state)@) == left_alone(old(state)@, section@),
{
    if has_prefix(section.selector.as_str(), "mbed_") {
        Err(FirewallRenderError::UnsupportedManagedSection(section.selector.clone()))
    } else {
        state.read_only.push(section.selector.clone());
        Ok(())
    }
}

fn supported_type(t: &str) -> (r: bool)
    ensures
        r == is_firewall_type(t@),
{
    same(t, "zone") || same(t, "forwarding") || same(t, "rule") || same(t, "ipset") || same(
        t,
        "redirect",
    ) || same(t, "nat")
}

fn scan_section(
    state: &mut FirewallScan,
    section: &UciSection,
    defaults: Option<ZoneDefaults>,
    valid: bool,
) -> (r: Result<(), FirewallRenderError>)
    ensures
        scan_result(r, final(state)@) == firewall_step(old(state)@, section@, defaults, valid),
{
    if same(section.section_type.as_str(), "defaults") {
        return Ok(());
    }
    if !supported_type(section.section_type.as_str()) {
        return leave_alone(state, section);
    }
    match decode_section(section, defaults) {
        None => leave_alone(state, section),
        Some(object) => {
            if has_prefix(section.selector.as_str(), "mbed_") && object.ownership()
                != ObjectOwnership::AgentOwned {
                return Err(
                    FirewallRenderError::UnsupportedManagedSection(section.selector.clone()),
                );
            }
            if !valid || section.options.len() > MAX_BINDING_OPTIONS {
                return leave_alone(state, section);
            }
            if find_object(&state.objects, object.kind(), object.id()) < state.objects.len() {
                return Err(FirewallRenderError::DuplicateInventoryObject);
            }
            state.bindings.push(bind(section, &object));
            state.objects.push(object);
            Ok(())
        },
    }
}

/// The binding of an object to a section.
pub fn bind(section: &UciSection, object: &FirewallObject) -> (r: OpenWrtObjectBinding)
    ensures
        r@ == firewall_binding(section@, object@),
{
    OpenWrtObjectBinding {
        kind: object.kind().to_owned(),
        id: object.id().to_owned(),
        section_type: section.section_type.clone(),
        section: section.selector.clone(),
        present_options: sort_texts(&section.names()),
    }
}

pub fn selectors_of(sections: &Vec<UciSection>) -> (r: Vec<String>)
    ensures
        views(r@) == selectors(views(sections@)),
{
    let mut r: Vec<String> = Vec::new();
    let mut i: usize = 0;
    while i < sections.len()
        invariant
            i <= sections@.len(),
            views(r@) =~= selectors(views(sections@)).take(i as int),
        decreases sections@.len() - i,
    {
        r.push(sections[i].selector.clone());
        i = i + 1;
    }
    assert(selectors(views(sections@)).take(i as int) =~= selectors(views(sections@)));
    r
}

/// Builds typed objects and their bindings from one firewall package.
///
/// The verdicts say of each section, by its index, whether the object model accepts the object that
/// it describes. A section that cannot be represented stays visible as read-only; one with a
/// reserved name makes the whole inspection fail.
pub fn inspect_openwrt_firewall_inventory(uci_show: &str, valid: &[bool]) -> (r: Result<
    OpenWrtFirewallInventorySnapshot,
    FirewallRenderError,
>)
    ensures
        vres(r) == firewall_snapshot(uci_show@, valid@),
{
    let sections = match parse_uci_show(uci_show) {
        Ok(s) => s,
        Err(e) => {
            return Err(e);
        },
    };
    let defaults = match zone_defaults(&sections) {
        Ok(d) => d,
        Err(e) => {
            return Err(e);
        },
    };
    let mut state = FirewallScan {
        objects: Vec::new(),
        bindings: Vec::new(),
        read_only: Vec::new(),
    };
    assert(state@ =~= empty_scan());
    let mut i: usize = 0;
    while i < sections.len()
        invariant
            i <= sections@.len(),
            package_sections(uci_show@, "firewall"@, false) == Ok::<
                Seq<UciSectionView>,
                FirewallRenderErrorView,
            >(views(sections@)),
            defaults_value(views(sections@)) == Ok::<
                Option<ZoneDefaults>,
                FirewallRenderErrorView,
            >(defaults),
            firewall_scan(state@, views(sections@), defaults, valid@, i as int) == firewall_scan(
                empty_scan(),
                views(sections@),
                defaults,
                valid@,
                0,
            ),
        decreases sections@.len() - i,
    {
        assert(views(sections@)[i as int] == sections@[i as int]@);
        let verdict = i < valid.len() && valid[i];
        match scan_section(&mut state, &sections[i], defaults, verdict) {
            Ok(()) => {},
            Err(e) => {
                return Err(e);
            },
        }
        i = i + 1;
    }
    let occupied_sections = selectors_of(&sections);
    let FirewallScan { objects, bindings, read_only } = state;
    Ok(
        OpenWrtFirewallInventorySnapshot {
            inventory: FirewallInventory { objects },
            bindings,
            occupied_sections,
            read_only_sections: read_only,
        },
    )
}

/// An object, or none, with its view.
pub struct Candidate {
    pub object: Option<FirewallObject>,
}

impl View for Candidate {
    type V = Option<FirewallObjectView>;

    open spec fn view(&self) -> Option<FirewallObjectView> {
        opt(self.object)
    }
}

/// The object of a section, as far as the object model is asked about it.
pub open spec fn candidate_of(s: UciSectionView, defaults: Option<ZoneDefaults>) -> Option<
    FirewallObjectView,
> {
    if is_firewall_type(s.section_type) {
        firewall_object_value(s, defaults)
    } else {
        None
    }
}

/// The objects that the object model is to be asked about, one for each section.
pub fn firewall_candidates(uci_show: &str) -> (r: Result<Vec<Candidate>, FirewallRenderError>)
    ensures
        lvres(r) == (match package_sections(uci_show@, "firewall"@, false) {
            Err(e) => Err(e),
            Ok(s) => match defaults_value(s) {
                Err(e) => Err(e),
                Ok(d) => Ok(Seq::new(s.len(), |i: int| candidate_of(s[i], d))),
            },
        }),
{
    let sections = match parse_uci_show(uci_show) {
        Ok(s) => s,
        Err(e) => {
            return Err(e);
        },
    };
    let defaults = match zone_defaults(&sections) {
        Ok(d) => d,
        Err(e) => {
            return Err(e);
        },
    };
    let mut r: Vec<Candidate> = Vec::new();
    let mut i: usize = 0;
    while i < sections.len()
        invariant
            i <= sections@.len(),
            r@.len() == i,
            forall|j: int|
                0 <= j < i ==> #[trigger] views(r@)[j] == candidate_of(
                    views(sections@)[j],
                    defaults,
                ),
        decreases sections@.len() - i,
    {
        let object = if supported_type(sections[i].section_type.as_str()) {
            decode_section(&sections[i], defaults)
        } else {
            None
        };
        assert(opt(object) == candidate_of(views(sections@)[i as int], defaults));
        r.push(Candidate { object });
        i = i + 1;
    }
    let ghost s = views(sections@);
    assert(views(r@) =~= Seq::new(s.len(), |i: int| candidate_of(s[i], defaults)));
    Ok(r)
}

} // verus!
