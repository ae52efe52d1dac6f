//! Network objects and plans.

use vstd::prelude::*;

use crate::change::{ObjectChecks, ObjectChecksView, ObjectDiff, ObjectDiffView, ObjectOwnership, RiskLevel};
use crate::items::{copy_list, copy_opt, same_list, same_opt, Item};
use crate::net::{IpAddr, IpNetwork};
use crate::text::same;
use crate::views::{opt, views};

verus! {

/// How an interface gets its addresses.
#[derive(Debug, Clone, Copy, PartialEq, Eq, Structural)]
pub enum NetworkAddressMode {
    Disabled,
    Static,
    Dhcp,
    Automatic,
}

impl View for NetworkAddressMode {
    type V = NetworkAddressMode;

    open spec fn view(&self) -> NetworkAddressMode {
        *self
    }
}

impl Item for NetworkAddressMode {
    fn alike(&self, other: &Self) -> (r: bool) {
        *self == *other
    }

    fn twin(&self) -> (r: Self) {
        *self
    }
}

/// What a DHCP service does.
#[derive(Debug, Clone, Copy, PartialEq, Eq, Structural)]
pub enum NetworkDhcpMode {
    Disabled,
    Server,
    Relay,
    Hybrid,
}

impl View for NetworkDhcpMode {
    type V = NetworkDhcpMode;

    open spec fn view(&self) -> NetworkDhcpMode {
        *self
    }
}

impl Item for NetworkDhcpMode {
    fn alike(&self, other: &Self) -> (r: bool) {
        *self == *other
    }

    fn twin(&self) -> (r: Self) {
        *self
    }
}

/// The tag format of a VLAN.
#[derive(Debug, Clone, Copy, PartialEq, Eq, Structural)]
pub enum NetworkVlanProtocol {
    Ieee8021Q,
    Ieee8021Ad,
}

impl View for NetworkVlanProtocol {
    type V = NetworkVlanProtocol;

    open spec fn view(&self) -> NetworkVlanProtocol {
        *self
    }
}

impl Item for NetworkVlanProtocol {
    fn alike(&self, other: &Self) -> (r: bool) {
        *self == *other
    }

    fn twin(&self) -> (r: Self) {
        *self
    }
}

/// What a route does with a packet.
#[derive(Debug, Clone, Copy, PartialEq, Eq, Structural)]
pub enum NetworkRouteType {
    Unicast,
    Blackhole,
    Unreachable,
    Prohibit,
}

impl View for NetworkRouteType {
    type V = NetworkRouteType;

    open spec fn view(&self) -> NetworkRouteType {
        *self
    }
}

impl Item for NetworkRouteType {
    fn alike(&self, other: &Self) -> (r: bool) {
        *self == *other
    }

    fn twin(&self) -> (r: Self) {
        *self
    }
}

/// What a policy rule does with a packet.
#[derive(Debug, Clone, Copy, PartialEq, Eq, Structural)]
pub enum NetworkPolicyAction {
    Lookup,
    Blackhole,
    Unreachable,
    Prohibit,
}

impl View for NetworkPolicyAction {
    type V = NetworkPolicyAction;

    open spec fn view(&self) -> NetworkPolicyAction {
        *self
    }
}

impl Item for NetworkPolicyAction {
    fn alike(&self, other: &Self) -> (r: bool) {
        *self == *other
    }

    fn twin(&self) -> (r: Self) {
        *self
    }
}

/// The address family of a policy rule.
#[derive(Debug, Clone, Copy, PartialEq, Eq, Structural)]
pub enum NetworkFamily {
    Ipv4,
    Ipv6,
}

impl View for NetworkFamily {
    type V = NetworkFamily;

    open spec fn view(&self) -> NetworkFamily {
        *self
    }
}

impl Item for NetworkFamily {
    fn alike(&self, other: &Self) -> (r: bool) {
        *self == *other
    }

    fn twin(&self) -> (r: Self) {
        *self
    }
}

/// How a bond uses its ports.
#[derive(Debug, Clone, Copy, PartialEq, Eq, Structural)]
pub enum NetworkBondMode {
    ActiveBackup,
    BalanceXor,
    Ieee8023Ad,
}

impl View for NetworkBondMode {
    type V = NetworkBondMode;

    open spec fn view(&self) -> NetworkBondMode {
        *self
    }
}

impl Item for NetworkBondMode {
    fn alike(&self, other: &Self) -> (r: bool) {
        *self == *other
    }

    fn twin(&self) -> (r: Self) {
        *self
    }
}

/// One option that a DHCP server hands out.
#[derive(Debug, Clone, PartialEq, Eq)]
pub struct NetworkDhcpOption {
    pub code: u16,
    pub value: String,
}

#[verifier::ext_equal]
pub struct NetworkDhcpOptionView {
    pub code: u16,
    pub value: Seq<char>,
}

impl View for NetworkDhcpOption {
    type V = NetworkDhcpOptionView;

    open spec fn view(&self) -> NetworkDhcpOptionView {
        NetworkDhcpOptionView {
            code: self.code,
            value: self.value@,
        }
    }
}

impl Item for NetworkDhcpOption {
    fn alike(&self, other: &Self) -> (r: bool) {
        self.code == other.code
            && same(self.value.as_str(), other.value.as_str())
    }

    fn twin(&self) -> (r: Self) {
        NetworkDhcpOption {
            code: self.code,
            value: self.value.clone(),
        }
    }
}

/// A DHCP server on an interface.
#[derive(Debug, Clone, PartialEq, Eq)]
pub struct NetworkDhcpServerConfig {
    pub enabled: bool,
    pub start: u16,
    pub limit: u16,
    pub lease_time: String,
    pub force: bool,
    pub dhcpv6_mode: NetworkDhcpMode,
    pub ra_mode: NetworkDhcpMode,
    pub ndp_mode: NetworkDhcpMode,
    pub dhcp_options: Vec<NetworkDhcpOption>,
}

#[verifier::ext_equal]
pub struct NetworkDhcpServerConfigView {
    pub enabled: bool,
    pub start: u16,
    pub limit: u16,
    pub lease_time: Seq<char>,
    pub force: bool,
    pub dhcpv6_mode: NetworkDhcpMode,
    pub ra_mode: NetworkDhcpMode,
    pub ndp_mode: NetworkDhcpMode,
    pub dhcp_options: Seq<NetworkDhcpOptionView>,
}

impl View for NetworkDhcpServerConfig {
    type V = NetworkDhcpServerConfigView;

    open spec fn view(&self) -> NetworkDhcpServerConfigView {
        NetworkDhcpServerConfigView {
            enabled: self.enabled,
            start: self.start,
            limit: self.limit,
            lease_time: self.lease_time@,
            force: self.force,
            dhcpv6_mode: self.dhcpv6_mode,
            ra_mode: self.ra_mode,
            ndp_mode: self.ndp_mode,
            dhcp_options: views(self.dhcp_options@),
        }
    }
}

impl Item for NetworkDhcpServerConfig {
    fn alike(&self, other: &Self) -> (r: bool) {
        self.enabled == other.enabled
            && self.start == other.start
            && self.limit == other.limit
            && same(self.lease_time.as_str(), other.lease_time.as_str())
            && self.force == other.force
            && self.dhcpv6_mode == other.dhcpv6_mode
            && self.ra_mode == other.ra_mode
            && self.ndp_mode == other.ndp_mode
            && same_list(&self.dhcp_options, &other.dhcp_options)
    }

    fn twin(&self) -> (r: Self) {
        NetworkDhcpServerConfig {
            enabled: self.enabled,
            start: self.start,
            limit: self.limit,
            lease_time: self.lease_time.clone(),
            force: self.force,
            dhcpv6_mode: self.dhcpv6_mode,
            ra_mode: self.ra_mode,
            ndp_mode: self.ndp_mode,
            dhcp_options: copy_list(&self.dhcp_options),
        }
    }
}

/// A logical interface.
#[derive(Debug, Clone, PartialEq, Eq)]
pub struct NetworkInterfaceConfig {
    pub id: String,
    pub ownership: ObjectOwnership,
    pub enabled: bool,
    pub device: String,
    pub ipv4_mode: NetworkAddressMode,
    pub ipv6_mode: NetworkAddressMode,
    pub addresses: Vec<IpNetwork>,
    pub mtu: Option<u32>,
    pub mac_override: Option<String>,
    pub peerdns: bool,
    pub dns_servers: Vec<IpAddr>,
    pub dns_search: Vec<String>,
    pub dhcp_client_id: Option<String>,
    pub dhcp_vendor_id: Option<String>,
    pub dhcp_hostname: Option<String>,
    pub dhcp_request_options: Vec<u16>,
    pub dhcp_no_release: bool,
    pub dhcp_server: Option<NetworkDhcpServerConfig>,
}

#[verifier::ext_equal]
pub struct NetworkInterfaceConfigView {
    pub id: Seq<char>,
    pub ownership: ObjectOwnership,
    pub enabled: bool,
    pub device: Seq<char>,
    pub ipv4_mode: NetworkAddressMode,
    pub ipv6_mode: NetworkAddressMode,
    pub addresses: Seq<IpNetwork>,
    pub mtu: Option<u32>,
    pub mac_override: Option<Seq<char>>,
    pub peerdns: bool,
    pub dns_servers: Seq<IpAddr>,
    pub dns_search: Seq<Seq<char>>,
    pub dhcp_client_id: Option<Seq<char>>,
    pub dhcp_vendor_id: Option<Seq<char>>,
    pub dhcp_hostname: Option<Seq<char>>,
    pub dhcp_request_options: Seq<u16>,
    pub dhcp_no_release: bool,
    pub dhcp_server: Option<NetworkDhcpServerConfigView>,
}

impl View for NetworkInterfaceConfig {
    type V = NetworkInterfaceConfigView;

    open spec fn view(&self) -> NetworkInterfaceConfigView {
        NetworkInterfaceConfigView {
            id: self.id@,
            ownership: self.ownership,
            enabled: self.enabled,
            device: self.device@,
            ipv4_mode: self.ipv4_mode,
            ipv6_mode: self.ipv6_mode,
            addresses: views(self.addresses@),
            mtu: opt(self.mtu),
            mac_override: opt(self.mac_override),
            peerdns: self.peerdns,
            dns_servers: views(self.dns_servers@),
            dns_search: views(self.dns_search@),
            dhcp_client_id: opt(self.dhcp_client_id),
            dhcp_vendor_id: opt(self.dhcp_vendor_id),
            dhcp_hostname: opt(self.dhcp_hostname),
            dhcp_request_options: views(self.dhcp_request_options@),
            dhcp_no_release: self.dhcp_no_release,
            dhcp_server: opt(self.dhcp_server),
        }
    }
}

impl Item for NetworkInterfaceConfig {
    fn alike(&self, other: &Self) -> (r: bool) {
        same(self.id.as_str(), other.id.as_str())
            && self.ownership == other.ownership
            && self.enabled == other.enabled
            && same(self.device.as_str(), other.device.as_str())
            && self.ipv4_mode == other.ipv4_mode
            && self.ipv6_mode == other.ipv6_mode
            && same_list(&self.addresses, &other.addresses)
            && same_opt(&self.mtu, &other.mtu)
            && same_opt(&self.mac_override, &other.mac_override)
            && self.peerdns == other.peerdns
            && same_list(&self.dns_servers, &other.dns_servers)
            && same_list(&self.dns_search, &other.dns_search)
            && same_opt(&self.dhcp_client_id, &other.dhcp_client_id)
            && same_opt(&self.dhcp_vendor_id, &other.dhcp_vendor_id)
            && same_opt(&self.dhcp_hostname, &other.dhcp_hostname)
            && same_list(&self.dhcp_request_options, &other.dhcp_request_options)
            && self.dhcp_no_release == other.dhcp_no_release
            && same_opt(&self.dhcp_server, &other.dhcp_server)
    }

    fn twin(&self) -> (r: Self) {
        NetworkInterfaceConfig {
            id: self.id.clone(),
            ownership: self.ownership,
            enabled: self.enabled,
            device: self.device.clone(),
            ipv4_mode: self.ipv4_mode,
            ipv6_mode: self.ipv6_mode,
            addresses: copy_list(&self.addresses),
            mtu: copy_opt(&self.mtu),
            mac_override: copy_opt(&self.mac_override),
            peerdns: self.peerdns,
            dns_servers: copy_list(&self.dns_servers),
            dns_search: copy_list(&self.dns_search),
            dhcp_client_id: copy_opt(&self.dhcp_client_id),
            dhcp_vendor_id: copy_opt(&self.dhcp_vendor_id),
            dhcp_hostname: copy_opt(&self.dhcp_hostname),
            dhcp_request_options: copy_list(&self.dhcp_request_options),
            dhcp_no_release: self.dhcp_no_release,
            dhcp_server: copy_opt(&self.dhcp_server),
        }
    }
}

/// A bridge device.
#[derive(Debug, Clone, PartialEq, Eq)]
pub struct NetworkBridge {
    pub id: String,
    pub ownership: ObjectOwnership,
    pub enabled: bool,
    pub ports: Vec<String>,
    pub stp: bool,
    pub vlan_filtering: bool,
    pub mtu: Option<u32>,
}

#[verifier::ext_equal]
pub struct NetworkBridgeView {
    pub id: Seq<char>,
    pub ownership: ObjectOwnership,
    pub enabled: bool,
    pub ports: Seq<Seq<char>>,
    pub stp: bool,
    pub vlan_filtering: bool,
    pub mtu: Option<u32>,
}

impl View for NetworkBridge {
    type V = NetworkBridgeView;

    open spec fn view(&self) -> NetworkBridgeView {
        NetworkBridgeView {
            id: self.id@,
            ownership: self.ownership,
            enabled: self.enabled,
            ports: views(self.ports@),
            stp: self.stp,
            vlan_filtering: self.vlan_filtering,
            mtu: opt(self.mtu),
        }
    }
}

impl Item for NetworkBridge {
    fn alike(&self, other: &Self) -> (r: bool) {
        same(self.id.as_str(), other.id.as_str())
            && self.ownership == other.ownership
            && self.enabled == other.enabled
            && same_list(&self.ports, &other.ports)
            && self.stp == other.stp
            && self.vlan_filtering == other.vlan_filtering
            && same_opt(&self.mtu, &other.mtu)
    }

    fn twin(&self) -> (r: Self) {
        NetworkBridge {
            id: self.id.clone(),
            ownership: self.ownership,
            enabled: self.enabled,
            ports: copy_list(&self.ports),
            stp: self.stp,
            vlan_filtering: self.vlan_filtering,
            mtu: copy_opt(&self.mtu),
        }
    }
}

/// A VLAN device.
#[derive(Debug, Clone, PartialEq, Eq)]
pub struct NetworkVlan {
    pub id: String,
    pub ownership: ObjectOwnership,
    pub enabled: bool,
    pub parent: String,
    pub vlan_id: u16,
    pub protocol: NetworkVlanProtocol,
    pub mtu: Option<u32>,
}

#[verifier::ext_equal]
pub struct NetworkVlanView {
    pub id: Seq<char>,
    pub ownership: ObjectOwnership,
    pub enabled: bool,
    pub parent: Seq<char>,
    pub vlan_id: u16,
    pub protocol: NetworkVlanProtocol,
    pub mtu: Option<u32>,
}

impl View for NetworkVlan {
    type V = NetworkVlanView;

    open spec fn view(&self) -> NetworkVlanView {
        NetworkVlanView {
            id: self.id@,
            ownership: self.ownership,
            enabled: self.enabled,
            parent: self.parent@,
            vlan_id: self.vlan_id,
            protocol: self.protocol,
            mtu: opt(self.mtu),
        }
    }
}

impl Item for NetworkVlan {
    fn alike(&self, other: &Self) -> (r: bool) {
        same(self.id.as_str(), other.id.as_str())
            && self.ownership == other.ownership
            && self.enabled == other.enabled
            && same(self.parent.as_str(), other.parent.as_str())
            && self.vlan_id == other.vlan_id
            && self.protocol == other.protocol
            && same_opt(&self.mtu, &other.mtu)
    }

    fn twin(&self) -> (r: Self) {
        NetworkVlan {
            id: self.id.clone(),
            ownership: self.ownership,
            enabled: self.enabled,
            parent: self.parent.clone(),
            vlan_id: self.vlan_id,
            protocol: self.protocol,
            mtu: copy_opt(&self.mtu),
        }
    }
}

/// A route.
#[derive(Debug, Clone, PartialEq, Eq)]
pub struct NetworkRoute {
    pub id: String,
    pub ownership: ObjectOwnership,
    pub enabled: bool,
    pub destination: IpNetwork,
    pub gateway: Option<IpAddr>,
    pub output_interface: Option<String>,
    pub preferred_source: Option<IpAddr>,
    pub table: u32,
    pub metric: Option<u32>,
    pub route_type: NetworkRouteType,
}

#[verifier::ext_equal]
pub struct NetworkRouteView {
    pub id: Seq<char>,
    pub ownership: ObjectOwnership,
    pub enabled: bool,
    pub destination: IpNetwork,
    pub gateway: Option<IpAddr>,
    pub output_interface: Option<Seq<char>>,
    pub preferred_source: Option<IpAddr>,
    pub table: u32,
    pub metric: Option<u32>,
    pub route_type: NetworkRouteType,
}

impl View for NetworkRoute {
    type V = NetworkRouteView;

    open spec fn view(&self) -> NetworkRouteView {
        NetworkRouteView {
            id: self.id@,
            ownership: self.ownership,
            enabled: self.enabled,
            destination: self.destination,
            gateway: opt(self.gateway),
            output_interface: opt(self.output_interface),
            preferred_source: opt(self.preferred_source),
            table: self.table,
            metric: opt(self.metric),
            route_type: self.route_type,
        }
    }
}

impl Item for NetworkRoute {
    fn alike(&self, other: &Self) -> (r: bool) {
        same(self.id.as_str(), other.id.as_str())
            && self.ownership == other.ownership
            && self.enabled == other.enabled
            && self.destination == other.destination
            && same_opt(&self.gateway, &other.gateway)
            && same_opt(&self.output_interface, &other.output_interface)
            && same_opt(&self.preferred_source, &other.preferred_source)
            && self.table == other.table
            && same_opt(&self.metric, &other.metric)
            && self.route_type == other.route_type
    }

    fn twin(&self) -> (r: Self) {
        NetworkRoute {
            id: self.id.clone(),
            ownership: self.ownership,
            enabled: self.enabled,
            destination: self.destination,
            gateway: copy_opt(&self.gateway),
            output_interface: copy_opt(&self.output_interface),
            preferred_source: copy_opt(&self.preferred_source),
            table: self.table,
            metric: copy_opt(&self.metric),
            route_type: self.route_type,
        }
    }
}

/// A policy routing rule.
#[derive(Debug, Clone, PartialEq, Eq)]
pub struct NetworkPolicyRule {
    pub id: String,
    pub ownership: ObjectOwnership,
    pub enabled: bool,
    pub family: NetworkFamily,
    pub priority: u32,
    pub source: Option<IpNetwork>,
    pub destination: Option<IpNetwork>,
    pub input_interface: Option<String>,
    pub output_interface: Option<String>,
    pub fwmark: Option<u32>,
    pub fwmark_mask: Option<u32>,
    pub table: u32,
    pub action: NetworkPolicyAction,
}

#[verifier::ext_equal]
pub struct NetworkPolicyRuleView {
    pub id: Seq<char>,
    pub ownership: ObjectOwnership,
    pub enabled: bool,
    pub family: NetworkFamily,
    pub priority: u32,
    pub source: Option<IpNetwork>,
    pub destination: Option<IpNetwork>,
    pub input_interface: Option<Seq<char>>,
    pub output_interface: Option<Seq<char>>,
    pub fwmark: Option<u32>,
    pub fwmark_mask: Option<u32>,
    pub table: u32,
    pub action: NetworkPolicyAction,
}

impl View for NetworkPolicyRule {
    type V = NetworkPolicyRuleView;

    open spec fn view(&self) -> NetworkPolicyRuleView {
        NetworkPolicyRuleView {
            id: self.id@,
            ownership: self.ownership,
            enabled: self.enabled,
            family: self.family,
            priority: self.priority,
            source: opt(self.source),
            destination: opt(self.destination),
            input_interface: opt(self.input_interface),
            output_interface: opt(self.output_interface),
            fwmark: opt(self.fwmark),
            fwmark_mask: opt(self.fwmark_mask),
            table: self.table,
            action: self.action,
        }
    }
}

impl Item for NetworkPolicyRule {
    fn alike(&self, other: &Self) -> (r: bool) {
        same(self.id.as_str(), other.id.as_str())
            && self.ownership == other.ownership
            && self.enabled == other.enabled
            && self.family == other.family
            && self.priority == other.priority
            && same_opt(&self.source, &other.source)
            && same_opt(&self.destination, &other.destination)
            && same_opt(&self.input_interface, &other.input_interface)
            && same_opt(&self.output_interface, &other.output_interface)
            && same_opt(&self.fwmark, &other.fwmark)
            && same_opt(&self.fwmark_mask, &other.fwmark_mask)
            && self.table == other.table
            && self.action == other.action
    }

    fn twin(&self) -> (r: Self) {
        NetworkPolicyRule {
            id: self.id.clone(),
            ownership: self.ownership,
            enabled: self.enabled,
            family: self.family,
            priority: self.priority,
            source: copy_opt(&self.source),
            destination: copy_opt(&self.destination),
            input_interface: copy_opt(&self.input_interface),
            output_interface: copy_opt(&self.output_interface),
            fwmark: copy_opt(&self.fwmark),
            fwmark_mask: copy_opt(&self.fwmark_mask),
            table: self.table,
            action: self.action,
        }
    }
}

/// A bond device.
#[derive(Debug, Clone, PartialEq, Eq)]
pub struct NetworkBond {
    pub id: String,
    pub ownership: ObjectOwnership,
    pub enabled: bool,
    pub ports: Vec<String>,
    pub mode: NetworkBondMode,
    pub primary: Option<String>,
    pub monitor_interval_ms: u32,
    pub mtu: Option<u32>,
}

#[verifier::ext_equal]
pub struct NetworkBondView {
    pub id: Seq<char>,
    pub ownership: ObjectOwnership,
    pub enabled: bool,
    pub ports: Seq<Seq<char>>,
    pub mode: NetworkBondMode,
    pub primary: Option<Seq<char>>,
    pub monitor_interval_ms: u32,
    pub mtu: Option<u32>,
}

impl View for NetworkBond {
    type V = NetworkBondView;

    open spec fn view(&self) -> NetworkBondView {
        NetworkBondView {
            id: self.id@,
            ownership: self.ownership,
            enabled: self.enabled,
            ports: views(self.ports@),
            mode: self.mode,
            primary: opt(self.primary),
            monitor_interval_ms: self.monitor_interval_ms,
            mtu: opt(self.mtu),
        }
    }
}

impl Item for NetworkBond {
    fn alike(&self, other: &Self) -> (r: bool) {
        same(self.id.as_str(), other.id.as_str())
            && self.ownership == other.ownership
            && self.enabled == other.enabled
            && same_list(&self.ports, &other.ports)
            && self.mode == other.mode
            && same_opt(&self.primary, &other.primary)
            && self.monitor_interval_ms == other.monitor_interval_ms
            && same_opt(&self.mtu, &other.mtu)
    }

    fn twin(&self) -> (r: Self) {
        NetworkBond {
            id: self.id.clone(),
            ownership: self.ownership,
            enabled: self.enabled,
            ports: copy_list(&self.ports),
            mode: self.mode,
            primary: copy_opt(&self.primary),
            monitor_interval_ms: self.monitor_interval_ms,
            mtu: copy_opt(&self.mtu),
        }
    }
}

/// A virtual routing domain.
#[derive(Debug, Clone, PartialEq, Eq)]
pub struct NetworkVrf {
    pub id: String,
    pub ownership: ObjectOwnership,
    pub enabled: bool,
    pub table: u32,
}

#[verifier::ext_equal]
pub struct NetworkVrfView {
    pub id: Seq<char>,
    pub ownership: ObjectOwnership,
    pub enabled: bool,
    pub table: u32,
}

impl View for NetworkVrf {
    type V = NetworkVrfView;

    open spec fn view(&self) -> NetworkVrfView {
        NetworkVrfView {
            id: self.id@,
            ownership: self.ownership,
            enabled: self.enabled,
            table: self.table,
        }
    }
}

impl Item for NetworkVrf {
    fn alike(&self, other: &Self) -> (r: bool) {
        same(self.id.as_str(), other.id.as_str())
            && self.ownership == other.ownership
            && self.enabled == other.enabled
            && self.table == other.table
    }

    fn twin(&self) -> (r: Self) {
        NetworkVrf {
            id: self.id.clone(),
            ownership: self.ownership,
            enabled: self.enabled,
            table: self.table,
        }
    }
}

/// A network object of any kind.
#[derive(Debug, Clone, PartialEq, Eq)]
pub enum NetworkObject {
    Interface(NetworkInterfaceConfig),
    Bridge(NetworkBridge),
    Vlan(NetworkVlan),
    Route(NetworkRoute),
    PolicyRule(NetworkPolicyRule),
    Bond(NetworkBond),
    Vrf(NetworkVrf),
}

#[verifier::ext_equal]
pub enum NetworkObjectView {
    Interface(NetworkInterfaceConfigView),
    Bridge(NetworkBridgeView),
    Vlan(NetworkVlanView),
    Route(NetworkRouteView),
    PolicyRule(NetworkPolicyRuleView),
    Bond(NetworkBondView),
    Vrf(NetworkVrfView),
}

impl View for NetworkObject {
    type V = NetworkObjectView;

    open spec fn view(&self) -> NetworkObjectView {
        match self {
            NetworkObject::Interface(x) => NetworkObjectView::Interface(x@),
            NetworkObject::Bridge(x) => NetworkObjectView::Bridge(x@),
            NetworkObject::Vlan(x) => NetworkObjectView::Vlan(x@),
            NetworkObject::Route(x) => NetworkObjectView::Route(x@),
            NetworkObject::PolicyRule(x) => NetworkObjectView::PolicyRule(x@),
            NetworkObject::Bond(x) => NetworkObjectView::Bond(x@),
            NetworkObject::Vrf(x) => NetworkObjectView::Vrf(x@),
        }
    }
}

impl Item for NetworkObject {
    fn alike(&self, other: &Self) -> (r: bool) {
        match (self, other) {
            (NetworkObject::Interface(x), NetworkObject::Interface(y)) => x.alike(y),
            (NetworkObject::Bridge(x), NetworkObject::Bridge(y)) => x.alike(y),
            (NetworkObject::Vlan(x), NetworkObject::Vlan(y)) => x.alike(y),
            (NetworkObject::Route(x), NetworkObject::Route(y)) => x.alike(y),
            (NetworkObject::PolicyRule(x), NetworkObject::PolicyRule(y)) => x.alike(y),
            (NetworkObject::Bond(x), NetworkObject::Bond(y)) => x.alike(y),
            (NetworkObject::Vrf(x), NetworkObject::Vrf(y)) => x.alike(y),
            _ => false,
        }
    }

    fn twin(&self) -> (r: Self) {
        match self {
            NetworkObject::Interface(x) => NetworkObject::Interface(x.twin()),
            NetworkObject::Bridge(x) => NetworkObject::Bridge(x.twin()),
            NetworkObject::Vlan(x) => NetworkObject::Vlan(x.twin()),
            NetworkObject::Route(x) => NetworkObject::Route(x.twin()),
            NetworkObject::PolicyRule(x) => NetworkObject::PolicyRule(x.twin()),
            NetworkObject::Bond(x) => NetworkObject::Bond(x.twin()),
            NetworkObject::Vrf(x) => NetworkObject::Vrf(x.twin()),
        }
    }
}

impl NetworkObjectView {
    /// The name of the object's kind.
    pub open spec fn kind(self) -> Seq<char> {
        match self {
            NetworkObjectView::Interface(_) => "interface"@,
            NetworkObjectView::Bridge(_) => "bridge"@,
            NetworkObjectView::Vlan(_) => "vlan"@,
            NetworkObjectView::Route(_) => "route"@,
            NetworkObjectView::PolicyRule(_) => "policy_rule"@,
            NetworkObjectView::Bond(_) => "bond"@,
            NetworkObjectView::Vrf(_) => "vrf"@,
        }
    }

    pub open spec fn id(self) -> Seq<char> {
        match self {
            NetworkObjectView::Interface(x) => x.id,
            NetworkObjectView::Bridge(x) => x.id,
            NetworkObjectView::Vlan(x) => x.id,
            NetworkObjectView::Route(x) => x.id,
            NetworkObjectView::PolicyRule(x) => x.id,
            NetworkObjectView::Bond(x) => x.id,
            NetworkObjectView::Vrf(x) => x.id,
        }
    }

    pub open spec fn ownership(self) -> ObjectOwnership {
        match self {
            NetworkObjectView::Interface(x) => x.ownership,
            NetworkObjectView::Bridge(x) => x.ownership,
            NetworkObjectView::Vlan(x) => x.ownership,
            NetworkObjectView::Route(x) => x.ownership,
            NetworkObjectView::PolicyRule(x) => x.ownership,
            NetworkObjectView::Bond(x) => x.ownership,
            NetworkObjectView::Vrf(x) => x.ownership,
        }
    }
}

impl NetworkObject {
    /// The name of the object's kind.
    pub fn kind(&self) -> (r: &'static str)
        ensures
            r@ == self@.kind(),
    {
        match self {
            NetworkObject::Interface(_) => "interface",
            NetworkObject::Bridge(_) => "bridge",
            NetworkObject::Vlan(_) => "vlan",
            NetworkObject::Route(_) => "route",
            NetworkObject::PolicyRule(_) => "policy_rule",
            NetworkObject::Bond(_) => "bond",
            NetworkObject::Vrf(_) => "vrf",
        }
    }

    pub fn id(&self) -> (r: &str)
        ensures
            r@ == self@.id(),
    {
        match self {
            NetworkObject::Interface(x) => x.id.as_str(),
            NetworkObject::Bridge(x) => x.id.as_str(),
            NetworkObject::Vlan(x) => x.id.as_str(),
            NetworkObject::Route(x) => x.id.as_str(),
            NetworkObject::PolicyRule(x) => x.id.as_str(),
            NetworkObject::Bond(x) => x.id.as_str(),
            NetworkObject::Vrf(x) => x.id.as_str(),
        }
    }

    pub fn ownership(&self) -> (r: ObjectOwnership)
        ensures
            r == self@.ownership(),
    {
        match self {
            NetworkObject::Interface(x) => x.ownership,
            NetworkObject::Bridge(x) => x.ownership,
            NetworkObject::Vlan(x) => x.ownership,
            NetworkObject::Route(x) => x.ownership,
            NetworkObject::PolicyRule(x) => x.ownership,
            NetworkObject::Bond(x) => x.ownership,
            NetworkObject::Vrf(x) => x.ownership,
        }
    }
}

/// The network objects of a platform.
#[derive(Debug, Clone, PartialEq, Eq)]
pub struct NetworkInventory {
    pub objects: Vec<NetworkObject>,
}

#[verifier::ext_equal]
pub struct NetworkInventoryView {
    pub objects: Seq<NetworkObjectView>,
}

impl View for NetworkInventory {
    type V = NetworkInventoryView;

    open spec fn view(&self) -> NetworkInventoryView {
        NetworkInventoryView {
            objects: views(self.objects@),
        }
    }
}

impl Item for NetworkInventory {
    fn alike(&self, other: &Self) -> (r: bool) {
        same_list(&self.objects, &other.objects)
    }

    fn twin(&self) -> (r: Self) {
        NetworkInventory {
            objects: copy_list(&self.objects),
        }
    }
}

/// One planned change of a network object, with what the object model says of both sides.
#[derive(Debug, Clone, PartialEq, Eq)]
pub struct NetworkPlannedChange {
    pub before: Option<NetworkObject>,
    pub after: Option<NetworkObject>,
    pub diff: ObjectDiff,
    pub before_checks: ObjectChecks,
    pub after_checks: ObjectChecks,
}

#[verifier::ext_equal]
pub struct NetworkPlannedChangeView {
    pub before: Option<NetworkObjectView>,
    pub after: Option<NetworkObjectView>,
    pub diff: ObjectDiffView,
    pub before_checks: ObjectChecksView,
    pub after_checks: ObjectChecksView,
}

impl View for NetworkPlannedChange {
    type V = NetworkPlannedChangeView;

    open spec fn view(&self) -> NetworkPlannedChangeView {
        NetworkPlannedChangeView {
            before: opt(self.before),
            after: opt(self.after),
            diff: self.diff@,
            before_checks: self.before_checks@,
            after_checks: self.after_checks@,
        }
    }
}

impl Item for NetworkPlannedChange {
    fn alike(&self, other: &Self) -> (r: bool) {
        same_opt(&self.before, &other.before)
            && same_opt(&self.after, &other.after)
            && self.diff.alike(&other.diff)
            && self.before_checks.alike(&other.before_checks)
            && self.after_checks.alike(&other.after_checks)
    }

    fn twin(&self) -> (r: Self) {
        NetworkPlannedChange {
            before: copy_opt(&self.before),
            after: copy_opt(&self.after),
            diff: self.diff.twin(),
            before_checks: self.before_checks.twin(),
            after_checks: self.after_checks.twin(),
        }
    }
}

/// A plan for the network.
#[derive(Debug, Clone, PartialEq, Eq)]
pub struct NetworkMutationPlan {
    pub risk: RiskLevel,
    pub changes: Vec<NetworkPlannedChange>,
}

#[verifier::ext_equal]
pub struct NetworkMutationPlanView {
    pub risk: RiskLevel,
    pub changes: Seq<NetworkPlannedChangeView>,
}

impl View for NetworkMutationPlan {
    type V = NetworkMutationPlanView;

    open spec fn view(&self) -> NetworkMutationPlanView {
        NetworkMutationPlanView {
            risk: self.risk,
            changes: views(self.changes@),
        }
    }
}

impl Item for NetworkMutationPlan {
    fn alike(&self, other: &Self) -> (r: bool) {
        self.risk == other.risk
            && same_list(&self.changes, &other.changes)
    }

    fn twin(&self) -> (r: Self) {
        NetworkMutationPlan {
            risk: self.risk,
            changes: copy_list(&self.changes),
        }
    }
}

} // verus!
