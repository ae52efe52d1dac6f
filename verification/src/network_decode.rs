//! Decoding of network and DHCP sections into typed objects.

use vstd::prelude::*;
use vstd::string::*;

use crate::change::ObjectOwnership;
use crate::firewall_uci::{
    anonymous_index, index_in_selector, text_view, UciOptionView, UciSection, UciSectionView,
};
use crate::items::copy_list;
use crate::net::{
    address_value, ipv4_value, network_value, parse_address, parse_ipv4_address, parse_network, IpAddr,
    IpNetwork,
};
use crate::network_model::{
    NetworkAddressMode, NetworkBridge, NetworkBridgeView, NetworkDhcpMode, NetworkDhcpOption,
    NetworkDhcpOptionView, NetworkDhcpServerConfig, NetworkDhcpServerConfigView, NetworkFamily,
    NetworkInterfaceConfig, NetworkInterfaceConfigView, NetworkObject, NetworkObjectView,
    NetworkPolicyAction, NetworkPolicyRule, NetworkPolicyRuleView, NetworkRoute, NetworkRouteType,
    NetworkRouteView, NetworkVlan, NetworkVlanProtocol, NetworkVlanView,
};
use crate::parse::{map_all, olist, read_all, read_u16, read_u32, u16_value, u32_value, Addresses, Halves, Reader};
use crate::text::{
    ascii_control, begins, byte_len, byte_length, chars_of, cut, find, hex_value, is_ascii_control, parse_hex,
    piece, same, split_once, starts, string_of,
};
use crate::uci_render::among;
use crate::views::{group_views, opt, views};

verus! {

broadcast use group_views;

/// Whether each option has one value, or at least one where it is a list.
pub open spec fn has_cardinality(options: Seq<UciOptionView>, lists: Seq<Seq<char>>) -> bool {
    forall|i: int|
        0 <= i < options.len() ==> (#[trigger] options[i]).values.len() == 1 || (lists.contains(
            options[i].name,
        ) && options[i].values.len() > 0)
}

/// The options of a section type that may have several values.
pub open spec fn list_options(section_type: Seq<char>) -> Seq<Seq<char>> {
    if section_type == "interface"@ {
        seq!["ipaddr"@, "ip6addr"@, "dns"@, "dns_search"@, "reqopts"@]
    } else if section_type == "device"@ {
        seq!["ports"@]
    } else {
        Seq::empty()
    }
}

/// The options of a section type whose meaning the typed model cannot hold.
pub open spec fn unsupported_options(section_type: Seq<char>) -> Seq<Seq<char>> {
    if section_type == "interface"@ {
        seq![
            "gateway"@,
            "ip6gw"@,
            "ip6assign"@,
            "ip6hint"@,
            "ip6class"@,
            "delegate"@,
            "metric"@,
            "type"@,
            "defaultroute"@,
            "force_link"@,
            "ip4table"@,
            "ip6table"@,
            "broadcast"@,
            "ip6prefix"@,
            "reqaddress"@,
            "reqprefix"@,
        ]
    } else if section_type == "device"@ {
        seq![
            "bridge_empty"@,
            "igmp_snooping"@,
            "multicast_querier"@,
            "macaddr"@,
            "promisc"@,
            "acceptlocal"@,
        ]
    } else if section_type == "route"@ || section_type == "route6"@ {
        seq!["onlink"@, "mtu"@]
    } else if section_type == "rule"@ || section_type == "rule6"@ {
        seq!["tos"@, "invert"@, "ipproto"@, "sport"@, "dport"@, "uidrange"@, "suppress_prefixlength"@]
    } else {
        Seq::empty()
    }
}

pub open spec fn has_any(s: UciSectionView, names: Seq<Seq<char>>) -> bool {
    exists|i: int| 0 <= i < names.len() && s.has(#[trigger] names[i])
}

/// A truth value; nothing where the word is none of those known.
pub open spec fn truth(s: Seq<char>) -> Option<bool> {
    if s == "0"@ || s == "false"@ || s == "no"@ || s == "off"@ {
        Some(false)
    } else if s == "1"@ || s == "true"@ || s == "yes"@ || s == "on"@ {
        Some(true)
    } else {
        None
    }
}

/// An optional truth value: nothing where the option is malformed, `None` inside where it is absent
/// or has several values.
pub open spec fn bool_option(s: UciSectionView, name: Seq<char>) -> Option<Option<bool>> {
    match s.scalar(name) {
        None => Some(None),
        Some(v) => match truth(v) {
            Some(b) => Some(Some(b)),
            None => None,
        },
    }
}

pub open spec fn u32_option(s: UciSectionView, name: Seq<char>) -> Option<Option<u32>> {
    match s.scalar(name) {
        None => Some(None),
        Some(v) => match u32_value(v) {
            Some(b) => Some(Some(b)),
            None => None,
        },
    }
}

pub open spec fn u16_option(s: UciSectionView, name: Seq<char>) -> Option<Option<u16>> {
    match s.scalar(name) {
        None => Some(None),
        Some(v) => match u16_value(v) {
            Some(b) => Some(Some(b)),
            None => None,
        },
    }
}

pub open spec fn ip_option(s: UciSectionView, name: Seq<char>) -> Option<Option<IpAddr>> {
    match s.scalar(name) {
        None => Some(None),
        Some(v) => match address_value(v) {
            Some(b) => Some(Some(b)),
            None => None,
        },
    }
}

pub open spec fn network_option(s: UciSectionView, name: Seq<char>) -> Option<Option<IpNetwork>> {
    match s.scalar(name) {
        None => Some(None),
        Some(v) => match network_value(v) {
            Some(b) => Some(Some(b)),
            None => None,
        },
    }
}

pub open spec fn or_else<T>(o: Option<T>, default: T) -> T {
    match o {
        Some(v) => v,
        None => default,
    }
}

/// Enabled unless disabled or not started by itself.
pub open spec fn enabled_value(s: UciSectionView) -> Option<bool> {
    match (bool_option(s, "disabled"@), bool_option(s, "auto"@)) {
        (Some(d), Some(a)) => Some(!or_else(d, false) && or_else(a, true)),
        _ => None,
    }
}

/// The number of leading ones of a netmask that holds no other ones.
pub open spec fn mask_prefix(mask: nat, p: nat) -> Option<nat>
    decreases 33 - p,
{
    if p > 32 {
        None
    } else if mask == prefix_mask(p) {
        Some(p)
    } else {
        mask_prefix(mask, p + 1)
    }
}

/// A netmask of `p` leading ones.
pub open spec fn prefix_mask(p: nat) -> nat {
    (0x1_0000_0000 - vstd::arithmetic::power2::pow2((32 - p) as nat)) as nat
}

pub open spec fn netmask_value(s: Seq<char>) -> Option<nat> {
    match ipv4_value(s) {
        Some(m) => mask_prefix(m, 0),
        None => None,
    }
}

pub open spec fn masked_network(raw: Seq<char>, netmask: Option<Seq<char>>) -> Option<IpNetwork> {
    match (ipv4_value(raw), netmask) {
        (Some(a), Some(m)) => match netmask_value(m) {
            Some(p) => Some(IpNetwork { address: IpAddr::V4(a as u32), prefix_len: p as u8 }),
            None => None,
        },
        _ => None,
    }
}

/// An address of an interface: with a prefix, or with the interface's netmask.
pub open spec fn interface_address(raw: Seq<char>, netmask: Option<Seq<char>>) -> Option<
    IpNetwork,
> {
    if raw.contains('/') {
        match network_value(raw) {
            Some(n) => if n.address is V4 {
                Some(n)
            } else {
                None
            },
            None => None,
        }
    } else {
        masked_network(raw, netmask)
    }
}

pub open spec fn ipv6_address(raw: Seq<char>) -> Option<IpNetwork> {
    match network_value(raw) {
        Some(n) => if n.address is V6 {
            Some(n)
        } else {
            None
        },
        None => None,
    }
}

/// The destination of a route.
pub open spec fn route_target(raw: Seq<char>, netmask: Option<Seq<char>>, ipv6: bool) -> Option<
    IpNetwork,
> {
    let value = if raw.contains('/') {
        network_value(raw)
    } else if ipv6 {
        match address_value(raw) {
            Some(address) => Some(IpNetwork { address, prefix_len: 128 }),
            None => None,
        }
    } else {
        masked_network(raw, netmask)
    };
    match value {
        Some(n) => if (n.address is V6) == ipv6 {
            Some(n)
        } else {
            None
        },
        None => None,
    }
}

pub open spec fn table_value(s: Seq<char>) -> Option<u32> {
    if s == "local"@ {
        Some(255)
    } else if s == "main"@ {
        Some(254)
    } else if s == "default"@ {
        Some(253)
    } else {
        u32_value(s)
    }
}

/// A decimal number, or a hexadecimal one behind `0x`.
pub open spec fn number_value(s: Seq<char>) -> Option<u32> {
    if starts(s, "0x"@) {
        match hex_value(s.skip(2), u32::MAX as nat) {
            Some(n) => Some(n as u32),
            None => None,
        }
    } else {
        u32_value(s)
    }
}

/// A mark and its mask.
pub open spec fn mark_value(s: Seq<char>) -> Option<(u32, u32)> {
    match split_once(s, '/') {
        Some((a, b)) => match (number_value(a), number_value(b)) {
            (Some(m), Some(k)) => Some((m, k)),
            _ => None,
        },
        None => None,
    }
}

/// The one of two alternatives that is present, if only one is.
pub open spec fn exclusive_value(a: Option<Seq<char>>, b: Option<Seq<char>>) -> Option<Seq<char>> {
    match (a, b) {
        (Some(v), None) => Some(v),
        (None, Some(v)) => Some(v),
        _ => None,
    }
}

/// The identity of a section: its marker, else its name, else its position.
pub open spec fn section_identity(s: UciSectionView, kind: Seq<char>) -> Option<Seq<char>> {
    match s.scalar("mbed_id"@) {
        Some(id) => Some(id),
        None => match s.scalar("name"@) {
            Some(id) => Some(id),
            None => match anonymous_index(s.selector, s.section_type) {
                Some(index) => Some("platform-"@ + kind + "-"@ + index),
                None => None,
            },
        },
    }
}

pub open spec fn address_modes(proto: Seq<char>, addresses: Seq<IpNetwork>) -> Option<
    (NetworkAddressMode, NetworkAddressMode),
> {
    let v4 = exists|i: int| 0 <= i < addresses.len() && (#[trigger] addresses[i]).address is V4;
    let v6 = exists|i: int| 0 <= i < addresses.len() && (#[trigger] addresses[i]).address is V6;
    if proto == "none"@ && addresses.len() == 0 {
        Some((NetworkAddressMode::Disabled, NetworkAddressMode::Disabled))
    } else if proto == "static"@ && addresses.len() > 0 {
        Some(
            (
                if v4 {
                    NetworkAddressMode::Static
                } else {
                    NetworkAddressMode::Disabled
                },
                if v6 {
                    NetworkAddressMode::Static
                } else {
                    NetworkAddressMode::Disabled
                },
            ),
        )
    } else if proto == "dhcp"@ && addresses.len() == 0 {
        Some((NetworkAddressMode::Dhcp, NetworkAddressMode::Disabled))
    } else if proto == "dhcpv6"@ && addresses.len() == 0 {
        Some((NetworkAddressMode::Disabled, NetworkAddressMode::Dhcp))
    } else {
        None
    }
}

/// The addresses of an interface, those of the older family first.
pub open spec fn interface_addresses(s: UciSectionView) -> Option<Seq<IpNetwork>> {
    let mask = s.first("netmask"@);
    match (
        map_all(s.values("ipaddr"@), |r: Seq<char>| interface_address(r, mask)),
        map_all(s.values("ip6addr"@), |r: Seq<char>| ipv6_address(r)),
    ) {
        (Some(a), Some(b)) => Some(a + b),
        _ => None,
    }
}

pub open spec fn interface_value(s: UciSectionView, ownership: ObjectOwnership) -> Option<
    NetworkInterfaceConfigView,
> {
    let addresses = interface_addresses(s);
    let modes = match (s.first("proto"@), addresses) {
        (Some(p), Some(a)) => address_modes(p, a),
        _ => None,
    };
    let device = exclusive_value(s.first("device"@), s.first("ifname"@));
    let enabled = enabled_value(s);
    let mtu = u32_option(s, "mtu"@);
    let peerdns = bool_option(s, "peerdns"@);
    let dns = map_all(s.values("dns"@), |r: Seq<char>| Addresses::value(r));
    let request = map_all(s.values("reqopts"@), |r: Seq<char>| Halves::value(r));
    let release = bool_option(s, "norelease"@);
    if device is Some && modes is Some && enabled is Some && mtu is Some && peerdns is Some
        && dns is Some && request is Some && release is Some {
        Some(
            NetworkInterfaceConfigView {
                id: or_else(s.scalar("mbed_id"@), s.selector),
                ownership,
                enabled: enabled->Some_0,
                device: device->Some_0,
                ipv4_mode: modes->Some_0.0,
                ipv6_mode: modes->Some_0.1,
                addresses: addresses->Some_0,
                mtu: mtu->Some_0,
                mac_override: s.scalar("macaddr"@),
                peerdns: or_else(peerdns->Some_0, true),
                dns_servers: dns->Some_0,
                dns_search: s.values("dns_search"@),
                dhcp_client_id: s.scalar("clientid"@),
                dhcp_vendor_id: s.scalar("vendorid"@),
                dhcp_hostname: s.scalar("hostname"@),
                dhcp_request_options: request->Some_0,
                dhcp_no_release: or_else(release->Some_0, false),
                dhcp_server: None,
            },
        )
    } else {
        None
    }
}

pub open spec fn bridge_value(s: UciSectionView, ownership: ObjectOwnership) -> Option<
    NetworkBridgeView,
> {
    match (
        s.scalar("name"@),
        enabled_value(s),
        bool_option(s, "stp"@),
        bool_option(s, "vlan_filtering"@),
        u32_option(s, "mtu"@),
    ) {
        (Some(id), Some(enabled), Some(stp), Some(filtering), Some(mtu)) => Some(
            NetworkBridgeView {
                id,
                ownership,
                enabled,
                ports: s.values("ports"@),
                stp: or_else(stp, false),
                vlan_filtering: or_else(filtering, false),
                mtu,
            },
        ),
        _ => None,
    }
}

pub open spec fn vlan_value(s: UciSectionView, ownership: ObjectOwnership) -> Option<
    NetworkVlanView,
> {
    let protocol = match s.scalar("type"@) {
        Some(t) => if t == "8021q"@ {
            Some(NetworkVlanProtocol::Ieee8021Q)
        } else if t == "8021ad"@ {
            Some(NetworkVlanProtocol::Ieee8021Ad)
        } else {
            None
        },
        None => None,
    };
    let vid = match s.scalar("vid"@) {
        Some(v) => u16_value(v),
        None => None,
    };
    match (
        s.scalar("name"@),
        enabled_value(s),
        s.scalar("ifname"@),
        vid,
        protocol,
        u32_option(s, "mtu"@),
    ) {
        (Some(id), Some(enabled), Some(parent), Some(vlan_id), Some(protocol), Some(mtu)) => Some(
            NetworkVlanView { id, ownership, enabled, parent, vlan_id, protocol, mtu },
        ),
        _ => None,
    }
}

pub open spec fn route_kind(s: Seq<char>) -> Option<NetworkRouteType> {
    if s == "unicast"@ {
        Some(NetworkRouteType::Unicast)
    } else if s == "blackhole"@ {
        Some(NetworkRouteType::Blackhole)
    } else if s == "unreachable"@ {
        Some(NetworkRouteType::Unreachable)
    } else if s == "prohibit"@ {
        Some(NetworkRouteType::Prohibit)
    } else {
        None
    }
}

pub open spec fn route_value(s: UciSectionView, ownership: ObjectOwnership) -> Option<
    NetworkRouteView,
> {
    let ipv6 = s.section_type == "route6"@;
    let target = or_else(
        s.first("target"@),
        if ipv6 {
            "::/0"@
        } else {
            "0.0.0.0/0"@
        },
    );
    let destination = route_target(target, s.first("netmask"@), ipv6);
    let kind = route_kind(or_else(s.first("type"@), "unicast"@));
    let table = table_value(or_else(s.first("table"@), "254"@));
    let id = section_identity(s, "route"@);
    let enabled = enabled_value(s);
    let gateway = ip_option(s, "gateway"@);
    let interface = s.scalar("interface"@);
    let source = ip_option(s, "source"@);
    let metric = u32_option(s, "metric"@);
    if destination is Some && kind is Some && or_else(s.first("proto"@), "static"@) == "static"@
        && table is Some && table->Some_0 <= 65535 && id is Some && enabled is Some && gateway is Some
        && interface is Some && source is Some && metric is Some {
        Some(
            NetworkRouteView {
                id: id->Some_0,
                ownership,
                enabled: enabled->Some_0,
                destination: destination->Some_0,
                gateway: gateway->Some_0,
                output_interface: interface,
                preferred_source: source->Some_0,
                table: table->Some_0,
                metric: metric->Some_0,
                route_type: kind->Some_0,
            },
        )
    } else {
        None
    }
}

pub open spec fn action_kind(s: Seq<char>) -> Option<NetworkPolicyAction> {
    if s == "lookup"@ {
        Some(NetworkPolicyAction::Lookup)
    } else if s == "blackhole"@ {
        Some(NetworkPolicyAction::Blackhole)
    } else if s == "unreachable"@ {
        Some(NetworkPolicyAction::Unreachable)
    } else if s == "prohibit"@ {
        Some(NetworkPolicyAction::Prohibit)
    } else {
        None
    }
}

/// The table of a policy rule: that of a lookup, else none.
pub open spec fn rule_table(s: UciSectionView, action: NetworkPolicyAction) -> Option<u32> {
    if action == NetworkPolicyAction::Lookup {
        match s.first("lookup"@) {
            Some(v) => table_value(v),
            None => None,
        }
    } else {
        Some(0)
    }
}

pub open spec fn policy_rule_value(s: UciSectionView, ownership: ObjectOwnership) -> Option<
    NetworkPolicyRuleView,
> {
    let mark = match s.scalar("mark"@) {
        Some(v) => match mark_value(v) {
            Some((m, k)) => Some((Some(m), Some(k))),
            None => None,
        },
        None => Some((None::<u32>, None::<u32>)),
    };
    let action = action_kind(or_else(s.first("action"@), "lookup"@));
    let table = match action {
        Some(a) => rule_table(s, a),
        None => None,
    };
    let id = section_identity(s, "rule"@);
    let enabled = enabled_value(s);
    let priority = match s.scalar("priority"@) {
        Some(v) => u32_value(v),
        None => None,
    };
    let source = network_option(s, "src"@);
    let destination = network_option(s, "dest"@);
    if mark is Some && action is Some && table is Some && table->Some_0 <= 65535 && id is Some
        && enabled is Some && priority is Some && source is Some && destination is Some {
        Some(
            NetworkPolicyRuleView {
                id: id->Some_0,
                ownership,
                enabled: enabled->Some_0,
                family: if s.section_type == "rule6"@ {
                    NetworkFamily::Ipv6
                } else {
                    NetworkFamily::Ipv4
                },
                priority: priority->Some_0,
                source: source->Some_0,
                destination: destination->Some_0,
                input_interface: s.scalar("in"@),
                output_interface: s.scalar("out"@),
                fwmark: mark->Some_0.0,
                fwmark_mask: mark->Some_0.1,
                table: table->Some_0,
                action: action->Some_0,
            },
        )
    } else {
        None
    }
}

/// The typed object that a section describes, if the typed model can hold all of it.
pub open spec fn network_object_value(s: UciSectionView, ownership: ObjectOwnership) -> Option<
    NetworkObjectView,
> {
    if !has_cardinality(s.options, list_options(s.section_type)) || has_any(
        s,
        unsupported_options(s.section_type),
    ) {
        None
    } else if s.section_type == "interface"@ {
        match interface_value(s, ownership) {
            Some(v) => Some(NetworkObjectView::Interface(v)),
            None => None,
        }
    } else if s.section_type == "device"@ {
        match s.first("type"@) {
            None => None,
            Some(t) => if t == "bridge"@ {
                match bridge_value(s, ownership) {
                    Some(v) => Some(NetworkObjectView::Bridge(v)),
                    None => None,
                }
            } else if t == "8021q"@ || t == "8021ad"@ {
                match vlan_value(s, ownership) {
                    Some(v) => Some(NetworkObjectView::Vlan(v)),
                    None => None,
                }
            } else {
                None
            },
        }
    } else if s.section_type == "route"@ || s.section_type == "route6"@ {
        match route_value(s, ownership) {
            Some(v) => Some(NetworkObjectView::Route(v)),
            None => None,
        }
    } else if s.section_type == "rule"@ || s.section_type == "rule6"@ {
        match policy_rule_value(s, ownership) {
            Some(v) => Some(NetworkObjectView::PolicyRule(v)),
            None => None,
        }
    } else {
        None
    }
}

pub open spec fn dhcp_mode_value(
    s: UciSectionView,
    name: Seq<char>,
    default: NetworkDhcpMode,
) -> Option<NetworkDhcpMode> {
    match s.scalar(name) {
        None => Some(default),
        Some(v) => if v == "disabled"@ {
            Some(NetworkDhcpMode::Disabled)
        } else if v == "server"@ {
            Some(NetworkDhcpMode::Server)
        } else if v == "relay"@ {
            Some(NetworkDhcpMode::Relay)
        } else if v == "hybrid"@ {
            Some(NetworkDhcpMode::Hybrid)
        } else {
            None
        },
    }
}

pub open spec fn is_dhcp_option_text(v: Seq<char>) -> bool {
    0 < v.len() && byte_len(v) <= 255 && forall|i: int|
        0 <= i < v.len() ==> !is_ascii_control(#[trigger] v[i]) && v[i] != '\'' && v[i] != '\\'
            && v[i] != ','
}

/// A code between 1 and 255, a comma and one value.
pub open spec fn dhcp_option_value(raw: Seq<char>) -> Option<NetworkDhcpOptionView> {
    match split_once(raw, ',') {
        Some((c, v)) => match u16_value(c) {
            Some(code) => if 1 <= code <= 255 && is_dhcp_option_text(v) {
                Some(NetworkDhcpOptionView { code, value: v })
            } else {
                None
            },
            None => None,
        },
        None => None,
    }
}

/// The options that a DHCP server is read from, but for those that it hands out.
pub open spec fn dhcp_fields() -> Seq<Seq<char>> {
    seq![
        "interface"@,
        "ignore"@,
        "start"@,
        "limit"@,
        "leasetime"@,
        "force"@,
        "dhcpv6"@,
        "ra"@,
        "ndp"@,
    ]
}

/// Whether each option that a DHCP server is read from has one value, where it is set. Other options
/// may be lists.
pub open spec fn is_scalar_dhcp(s: UciSectionView) -> bool {
    forall|i: int|
        0 <= i < dhcp_fields().len() ==> match s.get(#[trigger] dhcp_fields()[i]) {
            Some(v) => v.len() == 1,
            None => true,
        }
}

/// The DHCP server that a section describes. Of the options that are read only those that it hands out
/// may be several.
pub open spec fn dhcp_server_value(s: UciSectionView) -> Option<NetworkDhcpServerConfigView> {
    let ignore = bool_option(s, "ignore"@);
    let start = u16_option(s, "start"@);
    let limit = u16_option(s, "limit"@);
    let force = bool_option(s, "force"@);
    let v6 = dhcp_mode_value(s, "dhcpv6"@, NetworkDhcpMode::Server);
    let ra = dhcp_mode_value(s, "ra"@, NetworkDhcpMode::Server);
    let ndp = dhcp_mode_value(s, "ndp"@, NetworkDhcpMode::Hybrid);
    let options = map_all(s.values("dhcp_option"@), |r: Seq<char>| DhcpOptions::value(r));
    if ignore is Some && start is Some && limit is Some && force is Some && v6 is Some && ra is Some
        && ndp is Some && s.values("dhcp_option"@).len() <= 16 && options is Some && is_scalar_dhcp(s) {
        Some(
            NetworkDhcpServerConfigView {
                enabled: !or_else(ignore->Some_0, false),
                start: or_else(start->Some_0, 100),
                limit: or_else(limit->Some_0, 150),
                lease_time: or_else(s.scalar("leasetime"@), "12h"@),
                force: or_else(force->Some_0, false),
                dhcpv6_mode: v6->Some_0,
                ra_mode: ra->Some_0,
                ndp_mode: ndp->Some_0,
                dhcp_options: options->Some_0,
            },
        )
    } else {
        None
    }
}

fn dhcp_option_text(v: &[char]) -> (r: bool)
    ensures
        r == is_dhcp_option_text(v@),
{
    if v.len() == 0 || byte_length(string_of(v).as_str()) > 255 {
        return false;
    }
    let mut i: usize = 0;
    while i < v.len()
        invariant
            i <= v@.len(),
            forall|j: int|
                0 <= j < i ==> !is_ascii_control(#[trigger] v@[j]) && v@[j] != '\'' && v@[j] != '\\'
                    && v@[j] != ',',
        decreases v@.len() - i,
    {
        if ascii_control(v[i]) || v[i] == '\'' || v[i] == '\\' || v[i] == ',' {
            return false;
        }
        i = i + 1;
    }
    true
}

/// Reads one option that a DHCP server hands out.
pub struct DhcpOptions;

impl Reader for DhcpOptions {
    type Out = NetworkDhcpOption;

    open spec fn value(s: Seq<char>) -> Option<NetworkDhcpOptionView> {
        dhcp_option_value(s)
    }

    fn read(s: &str) -> (r: Option<NetworkDhcpOption>) {
        let cs = chars_of(s);
        match cut(cs.as_slice(), ',') {
            None => None,
            Some((c, v)) => {
                let code = read_u16(string_of(c).as_str());
                match code {
                    None => None,
                    Some(code) => {
                        if code < 1 || code > 255 || !dhcp_option_text(v) {
                            return None;
                        }
                        let o = NetworkDhcpOption { code, value: string_of(v) };
                        assert(split_once(s@, ',') == Some((c@, v@)));
                        assert(u16_value(c@) == Some(code));
                        assert(o@ == NetworkDhcpOptionView { code, value: v@ });
                        assert(dhcp_option_value(s@) == Some(o@));
                        Some(o)
                    },
                }
            },
        }
    }
}

pub fn truth_of(s: &str) -> (r: Option<bool>)
    ensures
        r == truth(s@),
{
    if same(s, "0") || same(s, "false") || same(s, "no") || same(s, "off") {
        Some(false)
    } else if same(s, "1") || same(s, "true") || same(s, "yes") || same(s, "on") {
        Some(true)
    } else {
        None
    }
}

fn optional_bool(section: &UciSection, name: &str) -> (r: Option<Option<bool>>)
    ensures
        r == bool_option(section@, name@),
{
    match section.scalar(name) {
        None => Some(None),
        Some(v) => match truth_of(v) {
            Some(b) => Some(Some(b)),
            None => None,
        },
    }
}

fn optional_u32(section: &UciSection, name: &str) -> (r: Option<Option<u32>>)
    ensures
        r == u32_option(section@, name@),
{
    match section.scalar(name) {
        None => Some(None),
        Some(v) => match read_u32(v) {
            Some(b) => Some(Some(b)),
            None => None,
        },
    }
}

fn optional_u16(section: &UciSection, name: &str) -> (r: Option<Option<u16>>)
    ensures
        r == u16_option(section@, name@),
{
    match section.scalar(name) {
        None => Some(None),
        Some(v) => match read_u16(v) {
            Some(b) => Some(Some(b)),
            None => None,
        },
    }
}

fn optional_ip(section: &UciSection, name: &str) -> (r: Option<Option<IpAddr>>)
    ensures
        r == ip_option(section@, name@),
{
    match section.scalar(name) {
        None => Some(None),
        Some(v) => match parse_address(chars_of(v).as_slice()) {
            Some(b) => Some(Some(b)),
            None => None,
        },
    }
}

fn parse_optional_network(section: &UciSection, name: &str) -> (r: Option<Option<IpNetwork>>)
    ensures
        r == network_option(section@, name@),
{
    match section.scalar(name) {
        None => Some(None),
        Some(v) => match parse_network(chars_of(v).as_slice()) {
            Some(b) => Some(Some(b)),
            None => None,
        },
    }
}

pub fn or_bool(o: Option<bool>, default: bool) -> (r: bool)
    ensures
        r == or_else(o, default),
{
    match o {
        Some(v) => v,
        None => default,
    }
}

pub fn or_text<'a>(o: Option<&'a str>, default: &'a str) -> (r: &'a str)
    ensures
        r@ == or_else(text_view(o), default@),
{
    match o {
        Some(v) => v,
        None => default,
    }
}

pub fn owned(o: Option<&str>) -> (r: Option<String>)
    ensures
        opt(r) == text_view(o),
{
    match o {
        Some(v) => Some(v.to_owned()),
        None => None,
    }
}

fn enabled(section: &UciSection) -> (r: Option<bool>)
    ensures
        r == enabled_value(section@),
{
    match (optional_bool(section, "disabled"), optional_bool(section, "auto")) {
        (Some(d), Some(a)) => Some(!or_bool(d, false) && or_bool(a, true)),
        _ => None,
    }
}

fn valid_cardinality(section: &UciSection, lists: &[&'static str]) -> (r: bool)
    ensures
        r == has_cardinality(section@.options, views(lists@)),
{
    let mut i: usize = 0;
    while i < section.options.len()
        invariant
            i <= section.options@.len(),
            forall|j: int|
                0 <= j < i ==> (#[trigger] section@.options[j]).values.len() == 1 || (views(
                    lists@,
                ).contains(section@.options[j].name) && section@.options[j].values.len() > 0),
        decreases section.options@.len() - i,
    {
        assert(section@.options[i as int] == section.options@[i as int]@);
        if section.options[i].values.len() != 1 && !(among(lists, section.options[i].name.as_str())
            && section.options[i].values.len() > 0) {
            return false;
        }
        i = i + 1;
    }
    true
}

fn any_of(section: &UciSection, names: &[&'static str]) -> (r: bool)
    ensures
        r == has_any(section@, views(names@)),
{
    let mut i: usize = 0;
    while i < names.len()
        invariant
            i <= names@.len(),
            forall|j: int| 0 <= j < i ==> !section@.has(#[trigger] views(names@)[j]),
        decreases names@.len() - i,
    {
        if section.has(names[i]) {
            assert(section@.has(views(names@)[i as int]));
            return true;
        }
        i = i + 1;
    }
    false
}

/// Whether the options of the section each have as many values as they may.
fn section_cardinality(section: &UciSection) -> (r: bool)
    ensures
        r == has_cardinality(section@.options, list_options(section@.section_type)),
{
    let kind = section.section_type.as_str();
    if same(kind, "interface") {
        let names = ["ipaddr", "ip6addr", "dns", "dns_search", "reqopts"];
        assert(views(names@) =~= list_options(section@.section_type));
        valid_cardinality(section, &names)
    } else if same(kind, "device") {
        let names = ["ports"];
        assert(views(names@) =~= list_options(section@.section_type));
        valid_cardinality(section, &names)
    } else {
        let names: [&'static str; 0] = [];
        assert(views(names@) =~= list_options(section@.section_type));
        valid_cardinality(section, &names)
    }
}

fn has_unsupported_semantics(section: &UciSection) -> (r: bool)
    ensures
        r == has_any(section@, unsupported_options(section@.section_type)),
{
    let kind = section.section_type.as_str();
    if same(kind, "interface") {
        let names = [
            "gateway",
            "ip6gw",
            "ip6assign",
            "ip6hint",
            "ip6class",
            "delegate",
            "metric",
            "type",
            "defaultroute",
            "force_link",
            "ip4table",
            "ip6table",
            "broadcast",
            "ip6prefix",
            "reqaddress",
            "reqprefix",
        ];
        assert(views(names@) =~= unsupported_options(section@.section_type));
        any_of(section, &names)
    } else if same(kind, "device") {
        let names = [
            "bridge_empty",
            "igmp_snooping",
            "multicast_querier",
            "macaddr",
            "promisc",
            "acceptlocal",
        ];
        assert(views(names@) =~= unsupported_options(section@.section_type));
        any_of(section, &names)
    } else if same(kind, "route") || same(kind, "route6") {
        let names = ["onlink", "mtu"];
        assert(views(names@) =~= unsupported_options(section@.section_type));
        any_of(section, &names)
    } else if same(kind, "rule") || same(kind, "rule6") {
        let names = ["tos", "invert", "ipproto", "sport", "dport", "uidrange", "suppress_prefixlength"];
        assert(views(names@) =~= unsupported_options(section@.section_type));
        any_of(section, &names)
    } else {
        false
    }
}

proof fn lemma_prefix_mask(p: nat)
    requires
        p <= 32,
    ensures
        p == 0 ==> prefix_mask(p) == 0,
        p < 32 ==> prefix_mask((p + 1) as nat) == prefix_mask(p) + vstd::arithmetic::power2::pow2(
            (31 - p) as nat,
        ),
        prefix_mask(p) < 0x1_0000_0000,
{
    vstd::arithmetic::power2::lemma2_to64();
    vstd::arithmetic::power2::lemma_pow2_pos((32 - p) as nat);
    if p < 32 {
        vstd::arithmetic::power2::lemma_pow2_unfold((32 - p) as nat);
    }
    if p > 0 {
        vstd::arithmetic::power2::lemma_pow2_strictly_increases((32 - p) as nat, 32);
    }
}

fn netmask_to_prefix(raw: &str) -> (r: Option<u8>)
    ensures
        match r {
            Some(p) => netmask_value(raw@) == Some(p as nat),
            None => netmask_value(raw@) is None,
        },
{
    match parse_ipv4_address(chars_of(raw).as_slice()) {
        None => None,
        Some(mask) => {
            let mut p: u8 = 0;
            let mut expected: u64 = 0;
            let mut bit: u64 = 0x8000_0000;
            proof {
                lemma_prefix_mask(0);
                vstd::arithmetic::power2::lemma2_to64();
            }
            while p <= 32
                invariant
                    p <= 33,
                    ipv4_value(raw@) == Some(mask as nat),
                    p <= 32 ==> expected == prefix_mask(p as nat),
                    p < 32 ==> bit == vstd::arithmetic::power2::pow2((31 - p) as nat),
                    bit <= 0x8000_0000,
                    expected < 0x1_0000_0000,
                    mask_prefix(mask as nat, p as nat) == mask_prefix(mask as nat, 0),
                decreases 33 - p,
            {
                if mask as u64 == expected {
                    return Some(p);
                }
                proof {
                    lemma_prefix_mask(p as nat);
                    if p < 32 {
                        lemma_prefix_mask((p + 1) as nat);
                    }
                    if p < 31 {
                        vstd::arithmetic::power2::lemma_pow2_unfold((31 - p) as nat);
                    }
                }
                if p < 32 {
                    expected = expected + bit;
                    bit = bit / 2;
                }
                p = p + 1;
            }
            None
        },
    }
}

fn contains_slash(raw: &str) -> (r: bool)
    ensures
        r == raw@.contains('/'),
{
    let cs = chars_of(raw);
    let k: usize = find(cs.as_slice(), '/', 0);
    if k < cs.len() {
        assert(raw@[k as int] == '/');
        true
    } else {
        false
    }
}

fn parse_masked(raw: &str, netmask: Option<&str>) -> (r: Option<IpNetwork>)
    ensures
        r == masked_network(raw@, text_view(netmask)),
{
    match (parse_ipv4_address(chars_of(raw).as_slice()), netmask) {
        (Some(a), Some(m)) => match netmask_to_prefix(m) {
            Some(prefix_len) => Some(IpNetwork { address: IpAddr::V4(a), prefix_len }),
            None => None,
        },
        _ => None,
    }
}

fn parse_ipv4_interface_address(raw: &str, netmask: Option<&str>) -> (r: Option<IpNetwork>)
    ensures
        r == interface_address(raw@, text_view(netmask)),
{
    if contains_slash(raw) {
        match parse_network(chars_of(raw).as_slice()) {
            Some(n) => if n.address.is_ipv4() {
                Some(n)
            } else {
                None
            },
            None => None,
        }
    } else {
        parse_masked(raw, netmask)
    }
}

fn parse_route_target(raw: &str, netmask: Option<&str>, ipv6: bool) -> (r: Option<IpNetwork>)
    ensures
        r == route_target(raw@, text_view(netmask), ipv6),
{
    let value = if contains_slash(raw) {
        parse_network(chars_of(raw).as_slice())
    } else if ipv6 {
        match parse_address(chars_of(raw).as_slice()) {
            Some(address) => Some(IpNetwork { address, prefix_len: 128 }),
            None => None,
        }
    } else {
        parse_masked(raw, netmask)
    };
    match value {
        Some(n) => if n.address.is_ipv6() == ipv6 {
            Some(n)
        } else {
            None
        },
        None => None,
    }
}

fn parse_table(raw: &str) -> (r: Option<u32>)
    ensures
        r == table_value(raw@),
{
    if same(raw, "local") {
        Some(255)
    } else if same(raw, "main") {
        Some(254)
    } else if same(raw, "default") {
        Some(253)
    } else {
        read_u32(raw)
    }
}

fn parse_number(raw: &[char]) -> (r: Option<u32>)
    ensures
        r == number_value(raw@),
{
    if begins(raw, "0x") {
        proof {
            reveal_strlit("0x");
        }
        let rest = piece(raw, 2, raw.len());
        assert(rest@ =~= raw@.skip(2));
        match parse_hex(rest, u32::MAX as u64) {
            Some(n) => Some(n as u32),
            None => None,
        }
    } else {
        read_u32(string_of(raw).as_str())
    }
}

fn parse_mark(raw: &str) -> (r: Option<(u32, u32)>)
    ensures
        r == mark_value(raw@),
{
    match cut(chars_of(raw).as_slice(), '/') {
        Some((a, b)) => match (parse_number(a), parse_number(b)) {
            (Some(m), Some(k)) => Some((m, k)),
            _ => None,
        },
        None => None,
    }
}

fn exclusive<'a>(left: Option<&'a str>, right: Option<&'a str>) -> (r: Option<&'a str>)
    ensures
        text_view(r) == exclusive_value(text_view(left), text_view(right)),
{
    match (left, right) {
        (Some(v), None) => Some(v),
        (None, Some(v)) => Some(v),
        _ => None,
    }
}

fn section_id(section: &UciSection, kind: &str) -> (r: Option<String>)
    ensures
        opt(r) == section_identity(section@, kind@),
{
    match section.scalar("mbed_id") {
        Some(id) => Some(id.to_owned()),
        None => match section.scalar("name") {
            Some(id) => Some(id.to_owned()),
            None => match index_in_selector(
                section.selector.as_str(),
                section.section_type.as_str(),
            ) {
                Some(index) => {
                    let mut r = "platform-".to_owned();
                    r.append(kind);
                    r.append("-");
                    r.append(index.as_str());
                    Some(r)
                },
                None => None,
            },
        },
    }
}

fn collect_addresses(section: &UciSection) -> (r: Option<Vec<IpNetwork>>)
    ensures
        olist(r) == interface_addresses(section@),
{
    let netmask = section.first("netmask");
    let ghost mask = section@.first("netmask"@);
    let ghost f4 = |r: Seq<char>| interface_address(r, mask);
    let ghost f6 = |r: Seq<char>| ipv6_address(r);
    let ghost a4 = section@.values("ipaddr"@);
    let ghost a6 = section@.values("ip6addr"@);
    let v4 = section.values("ipaddr");
    let v6 = section.values("ip6addr");
    let mut r: Vec<IpNetwork> = Vec::new();
    let mut i: usize = 0;
    while i < v4.len()
        invariant
            i <= v4@.len(),
            a4 == views(v4@),
            a4 == section@.values("ipaddr"@),
            mask == text_view(netmask),
            mask == section@.first("netmask"@),
            f4 == (|r: Seq<char>| interface_address(r, mask)),
            r@.len() == i,
            forall|j: int| 0 <= j < i ==> f4(#[trigger] a4[j]) is Some,
            forall|j: int| 0 <= j < i ==> #[trigger] r@[j] == f4(a4[j])->Some_0,
        decreases v4@.len() - i,
    {
        assert(a4[i as int] == v4@[i as int]@);
        match parse_ipv4_interface_address(v4[i].as_str(), netmask) {
            Some(n) => r.push(n),
            None => {
                assert(f4(a4[i as int]) is None);
                return None;
            },
        }
        i = i + 1;
    }
    let ghost n4 = Seq::new(a4.len(), |i: int| f4(a4[i])->Some_0);
    assert(r@ =~= n4);
    i = 0;
    while i < v6.len()
        invariant
            i <= v6@.len(),
            a6 == views(v6@),
            a6 == section@.values("ip6addr"@),
            map_all(section@.values("ipaddr"@), |r: Seq<char>|
                interface_address(r, section@.first("netmask"@))) == Some(n4),
            f6 == (|r: Seq<char>| ipv6_address(r)),
            r@.len() == n4.len() + i,
            r@.take(n4.len() as int) =~= n4,
            forall|j: int| 0 <= j < i ==> f6(#[trigger] a6[j]) is Some,
            forall|j: int| 0 <= j < i ==> r@[n4.len() + j] == f6(#[trigger] a6[j])->Some_0,
        decreases v6@.len() - i,
    {
        assert(a6[i as int] == v6@[i as int]@);
        match parse_network(chars_of(v6[i].as_str()).as_slice()) {
            Some(n) => {
                if !n.address.is_ipv6() {
                    assert(f6(a6[i as int]) is None);
                    return None;
                }
                r.push(n);
            },
            None => {
                assert(f6(a6[i as int]) is None);
                return None;
            },
        }
        i = i + 1;
    }
    let ghost n6 = Seq::new(a6.len(), |i: int| f6(a6[i])->Some_0);
    assert(r@ =~= n4 + n6);
    assert(views(r@) =~= r@);
    Some(r)
}

fn modes_of(proto: &str, addresses: &Vec<IpNetwork>) -> (r: Option<
    (NetworkAddressMode, NetworkAddressMode),
>)
    ensures
        r == address_modes(proto@, addresses@),
{
    let mut has_v4 = false;
    let mut has_v6 = false;
    let mut i: usize = 0;
    while i < addresses.len()
        invariant
            i <= addresses@.len(),
            has_v4 == (exists|j: int| 0 <= j < i && (#[trigger] addresses@[j]).address is V4),
            has_v6 == (exists|j: int| 0 <= j < i && (#[trigger] addresses@[j]).address is V6),
        decreases addresses@.len() - i,
    {
        if addresses[i].address.is_ipv4() {
            has_v4 = true;
        } else {
            has_v6 = true;
        }
        i = i + 1;
    }
    if same(proto, "none") && addresses.len() == 0 {
        Some((NetworkAddressMode::Disabled, NetworkAddressMode::Disabled))
    } else if same(proto, "static") && addresses.len() > 0 {
        let v4 = if has_v4 {
            NetworkAddressMode::Static
        } else {
            NetworkAddressMode::Disabled
        };
        let v6 = if has_v6 {
            NetworkAddressMode::Static
        } else {
            NetworkAddressMode::Disabled
        };
        Some((v4, v6))
    } else if same(proto, "dhcp") && addresses.len() == 0 {
        Some((NetworkAddressMode::Dhcp, NetworkAddressMode::Disabled))
    } else if same(proto, "dhcpv6") && addresses.len() == 0 {
        Some((NetworkAddressMode::Disabled, NetworkAddressMode::Dhcp))
    } else {
        None
    }
}

/// Copies the values of an option.
pub fn values_of(section: &UciSection, name: &str) -> (r: Vec<String>)
    ensures
        views(r@) == section@.values(name@),
{
    match section.get(name) {
        Some(v) => copy_list(v),
        None => Vec::new(),
    }
}

fn decode_interface(section: &UciSection, ownership: ObjectOwnership) -> (r: Option<
    NetworkInterfaceConfig,
>)
    ensures
        opt(r) == interface_value(section@, ownership),
{
    let addresses = match collect_addresses(section) {
        Some(a) => a,
        None => {
            return None;
        },
    };
    assert(views(addresses@) =~= addresses@);
    let proto = match section.first("proto") {
        Some(p) => p,
        None => {
            return None;
        },
    };
    let modes = match modes_of(proto, &addresses) {
        Some(m) => m,
        None => {
            return None;
        },
    };
    let device = match exclusive(section.first("device"), section.first("ifname")) {
        Some(d) => d.to_owned(),
        None => {
            return None;
        },
    };
    let enabled = match enabled(section) {
        Some(e) => e,
        None => {
            return None;
        },
    };
    let mtu = match optional_u32(section, "mtu") {
        Some(m) => m,
        None => {
            return None;
        },
    };
    let peerdns = match optional_bool(section, "peerdns") {
        Some(p) => or_bool(p, true),
        None => {
            return None;
        },
    };
    let dns_servers = match read_all::<Addresses>(section.values("dns")) {
        Some(d) => d,
        None => {
            return None;
        },
    };
    let dhcp_request_options = match read_all::<Halves>(section.values("reqopts")) {
        Some(d) => d,
        None => {
            return None;
        },
    };
    let dhcp_no_release = match optional_bool(section, "norelease") {
        Some(p) => or_bool(p, false),
        None => {
            return None;
        },
    };
    let id = or_text(section.scalar("mbed_id"), section.selector.as_str()).to_owned();
    Some(
        NetworkInterfaceConfig {
            id,
            ownership,
            enabled,
            device,
            ipv4_mode: modes.0,
            ipv6_mode: modes.1,
            addresses,
            mtu,
            mac_override: owned(section.scalar("macaddr")),
            peerdns,
            dns_servers,
            dns_search: values_of(section, "dns_search"),
            dhcp_client_id: owned(section.scalar("clientid")),
            dhcp_vendor_id: owned(section.scalar("vendorid")),
            dhcp_hostname: owned(section.scalar("hostname")),
            dhcp_request_options,
            dhcp_no_release,
            dhcp_server: None,
        },
    )
}

fn decode_bridge(section: &UciSection, ownership: ObjectOwnership) -> (r: Option<NetworkBridge>)
    ensures
        opt(r) == bridge_value(section@, ownership),
{
    match (
        section.scalar("name"),
        enabled(section),
        optional_bool(section, "stp"),
        optional_bool(section, "vlan_filtering"),
        optional_u32(section, "mtu"),
    ) {
        (Some(id), Some(enabled), Some(stp), Some(filtering), Some(mtu)) => Some(
            NetworkBridge {
                id: id.to_owned(),
                ownership,
                enabled,
                ports: values_of(section, "ports"),
                stp: or_bool(stp, false),
                vlan_filtering: or_bool(filtering, false),
                mtu,
            },
        ),
        _ => None,
    }
}

fn decode_vlan(section: &UciSection, ownership: ObjectOwnership) -> (r: Option<NetworkVlan>)
    ensures
        opt(r) == vlan_value(section@, ownership),
{
    let protocol = match section.scalar("type") {
        Some(t) => if same(t, "8021q") {
            Some(NetworkVlanProtocol::Ieee8021Q)
        } else if same(t, "8021ad") {
            Some(NetworkVlanProtocol::Ieee8021Ad)
        } else {
            None
        },
        None => None,
    };
    let vid = match section.scalar("vid") {
        Some(v) => read_u16(v),
        None => None,
    };
    match (
        section.scalar("name"),
        enabled(section),
        section.scalar("ifname"),
        vid,
        protocol,
        optional_u32(section, "mtu"),
    ) {
        (Some(id), Some(enabled), Some(parent), Some(vlan_id), Some(protocol), Some(mtu)) => Some(
            NetworkVlan {
                id: id.to_owned(),
                ownership,
                enabled,
                parent: parent.to_owned(),
                vlan_id,
                protocol,
                mtu,
            },
        ),
        _ => None,
    }
}

fn parse_route_type(s: &str) -> (r: Option<NetworkRouteType>)
    ensures
        r == route_kind(s@),
{
    if same(s, "unicast") {
        Some(NetworkRouteType::Unicast)
    } else if same(s, "blackhole") {
        Some(NetworkRouteType::Blackhole)
    } else if same(s, "unreachable") {
        Some(NetworkRouteType::Unreachable)
    } else if same(s, "prohibit") {
        Some(NetworkRouteType::Prohibit)
    } else {
        None
    }
}

fn decode_route(section: &UciSection, ownership: ObjectOwnership) -> (r: Option<NetworkRoute>)
    ensures
        opt(r) == route_value(section@, ownership),
{
    let ipv6 = same(section.section_type.as_str(), "route6");
    let whole = if ipv6 {
        "::/0"
    } else {
        "0.0.0.0/0"
    };
    let target = or_text(section.first("target"), whole);
    if !same(or_text(section.first("proto"), "static"), "static") {
        return None;
    }
    match (
        parse_route_target(target, section.first("netmask"), ipv6),
        parse_route_type(or_text(section.first("type"), "unicast")),
        parse_table(or_text(section.first("table"), "254")),
        section_id(section, "route"),
        enabled(section),
        optional_ip(section, "gateway"),
        section.scalar("interface"),
        optional_ip(section, "source"),
        optional_u32(section, "metric"),
    ) {
        (
            Some(destination),
            Some(route_type),
            Some(table),
            Some(id),
            Some(enabled),
            Some(gateway),
            Some(interface),
            Some(preferred_source),
            Some(metric),
        ) => {
            if table > 65535 {
                return None;
            }
            Some(
                NetworkRoute {
                    id,
                    ownership,
                    enabled,
                    destination,
                    gateway,
                    output_interface: Some(interface.to_owned()),
                    preferred_source,
                    table,
                    metric,
                    route_type,
                },
            )
        },
        _ => None,
    }
}

fn parse_action(s: &str) -> (r: Option<NetworkPolicyAction>)
    ensures
        r == action_kind(s@),
{
    if same(s, "lookup") {
        Some(NetworkPolicyAction::Lookup)
    } else if same(s, "blackhole") {
        Some(NetworkPolicyAction::Blackhole)
    } else if same(s, "unreachable") {
        Some(NetworkPolicyAction::Unreachable)
    } else if same(s, "prohibit") {
        Some(NetworkPolicyAction::Prohibit)
    } else {
        None
    }
}

fn decode_policy_rule(section: &UciSection, ownership: ObjectOwnership) -> (r: Option<
    NetworkPolicyRule,
>)
    ensures
        opt(r) == policy_rule_value(section@, ownership),
{
    let family = if same(section.section_type.as_str(), "rule6") {
        NetworkFamily::Ipv6
    } else {
        NetworkFamily::Ipv4
    };
    let (fwmark, fwmark_mask) = match section.scalar("mark") {
        Some(v) => match parse_mark(v) {
            Some((m, k)) => (Some(m), Some(k)),
            None => {
                return None;
            },
        },
        None => (None, None),
    };
    let action = match parse_action(or_text(section.first("action"), "lookup")) {
        Some(a) => a,
        None => {
            return None;
        },
    };
    let table: u32 = if action == NetworkPolicyAction::Lookup {
        match section.first("lookup") {
            Some(v) => match parse_table(v) {
                Some(t) => t,
                None => {
                    return None;
                },
            },
            None => {
                return None;
            },
        }
    } else {
        0
    };
    if table > 65535 {
        return None;
    }
    let priority = match section.scalar("priority") {
        Some(v) => read_u32(v),
        None => None,
    };
    match (
        section_id(section, "rule"),
        enabled(section),
        priority,
        parse_optional_network(section, "src"),
        parse_optional_network(section, "dest"),
    ) {
        (Some(id), Some(enabled), Some(priority), Some(source), Some(destination)) => Some(
            NetworkPolicyRule {
                id,
                ownership,
                enabled,
                family,
                priority,
                source,
                destination,
                input_interface: owned(section.scalar("in")),
                output_interface: owned(section.scalar("out")),
                fwmark,
                fwmark_mask,
                table,
                action,
            },
        ),
        _ => None,
    }
}

/// Decodes a network section.
pub fn decode_section(section: &UciSection, ownership: ObjectOwnership) -> (r: Option<
    NetworkObject,
>)
    ensures
        opt(r) == network_object_value(section@, ownership),
{
    if !section_cardinality(section) || has_unsupported_semantics(section) {
        return None;
    }
    let kind = section.section_type.as_str();
    if same(kind, "interface") {
        match decode_interface(section, ownership) {
            Some(v) => Some(NetworkObject::Interface(v)),
            None => None,
        }
    } else if same(kind, "device") {
        match section.first("type") {
            None => None,
            Some(t) => if same(t, "bridge") {
                match decode_bridge(section, ownership) {
                    Some(v) => Some(NetworkObject::Bridge(v)),
                    None => None,
                }
            } else if same(t, "8021q") || same(t, "8021ad") {
                match decode_vlan(section, ownership) {
                    Some(v) => Some(NetworkObject::Vlan(v)),
                    None => None,
                }
            } else {
                None
            },
        }
    } else if same(kind, "route") || same(kind, "route6") {
        match decode_route(section, ownership) {
            Some(v) => Some(NetworkObject::Route(v)),
            None => None,
        }
    } else if same(kind, "rule") || same(kind, "rule6") {
        match decode_policy_rule(section, ownership) {
            Some(v) => Some(NetworkObject::PolicyRule(v)),
            None => None,
        }
    } else {
        None
    }
}

fn dhcp_mode(section: &UciSection, name: &str, default: NetworkDhcpMode) -> (r: Option<
    NetworkDhcpMode,
>)
    ensures
        r == dhcp_mode_value(section@, name@, default),
{
    match section.scalar(name) {
        None => Some(default),
        Some(v) => if same(v, "disabled") {
            Some(NetworkDhcpMode::Disabled)
        } else if same(v, "server") {
            Some(NetworkDhcpMode::Server)
        } else if same(v, "relay") {
            Some(NetworkDhcpMode::Relay)
        } else if same(v, "hybrid") {
            Some(NetworkDhcpMode::Hybrid)
        } else {
            None
        },
    }
}

fn dhcp_fields_are_scalar(section: &UciSection) -> (r: bool)
    ensures
        r == is_scalar_dhcp(section@),
{
    let names: [&str; 9] = [
        "interface",
        "ignore",
        "start",
        "limit",
        "leasetime",
        "force",
        "dhcpv6",
        "ra",
        "ndp",
    ];
    assert(views(names@) =~= dhcp_fields());
    let mut i: usize = 0;
    while i < names.len()
        invariant
            i <= names@.len(),
            views(names@) == dhcp_fields(),
            forall|j: int|
                0 <= j < i ==> match section@.get(#[trigger] dhcp_fields()[j]) {
                    Some(v) => v.len() == 1,
                    None => true,
                },
        decreases names@.len() - i,
    {
        assert(dhcp_fields()[i as int] == names@[i as int]@);
        match section.get(names[i]) {
            Some(v) => {
                if v.len() != 1 {
                    return false;
                }
            },
            None => {},
        }
        i = i + 1;
    }
    true
}

/// Decodes the DHCP server of a section.
pub fn decode_dhcp_server(section: &UciSection) -> (r: Option<NetworkDhcpServerConfig>)
    ensures
        opt(r) == dhcp_server_value(section@),
{
    let raw = section.values("dhcp_option");
    assert(section@.values("dhcp_option"@).len() == raw@.len());
    if raw.len() > 16 {
        return None;
    }
    if !dhcp_fields_are_scalar(section) {
        return None;
    }
    match (
        optional_bool(section, "ignore"),
        optional_u16(section, "start"),
        optional_u16(section, "limit"),
        optional_bool(section, "force"),
        dhcp_mode(section, "dhcpv6", NetworkDhcpMode::Server),
        dhcp_mode(section, "ra", NetworkDhcpMode::Server),
        dhcp_mode(section, "ndp", NetworkDhcpMode::Hybrid),
        read_all::<DhcpOptions>(raw),
    ) {
        (
            Some(ignore),
            Some(start),
            Some(limit),
            Some(force),
            Some(dhcpv6_mode),
            Some(ra_mode),
            Some(ndp_mode),
            Some(dhcp_options),
        ) => Some(
            NetworkDhcpServerConfig {
                enabled: !or_bool(ignore, false),
                start: match start {
                    Some(v) => v,
                    None => 100,
                },
                limit: match limit {
                    Some(v) => v,
                    None => 150,
                },
                lease_time: or_text(section.scalar("leasetime"), "12h").to_owned(),
                force: or_bool(force, false),
                dhcpv6_mode,
                ra_mode,
                ndp_mode,
                dhcp_options,
            },
        ),
        _ => None,
    }
}

} // verus!
