//! Staging of an approved network plan as batches of configuration commands.

use vstd::prelude::*;
use vstd::string::*;

use crate::change::{ChangeOperation, ObjectChecks, ObjectOwnership};
use crate::firewall_uci::{
    is_identifier, is_section, safe_uci_identifier, valid_section,
};
use crate::items::{copy_list, same_opt, Item};
use crate::net::{address_format, network_format, IpAddr, IpNetwork};
use crate::network_model::{
    NetworkAddressMode, NetworkDhcpMode, NetworkDhcpServerConfig, NetworkDhcpServerConfigView,
    NetworkFamily, NetworkInterfaceConfig, NetworkInterfaceConfigView, NetworkMutationPlan, NetworkObject,
    NetworkObjectView, NetworkPlannedChange, NetworkPlannedChangeView, NetworkPolicyAction,
    NetworkPolicyRule, NetworkPolicyRuleView, NetworkRoute, NetworkRouteType, NetworkRouteView,
    NetworkVlanProtocol,
};
use crate::network_openwrt::{
    all_distinct, find_object, object_from, NetworkRenderError, NetworkRenderErrorView,
    OpenWrtNetworkInventorySnapshot, OpenWrtNetworkInventorySnapshotView, OpenWrtNetworkObjectBinding,
    OpenWrtNetworkObjectBindingView,
};
use crate::text::{
    alnum, byte_len, byte_length, chars_of, decimal, decimal_text, hex, hex_text, holds, is_alnum,
    lower_all, lower_text, piece, same, string_of,
};
use crate::uci_render::{
    append_cleared, append_create, append_delete, append_section, bool_value, cleared_text, create_line,
    delete_line, digest_like, flag, is_digest, push_address, push_list, push_network, push_option, push_some,
    push_text, put_some, section_text, OptionsView, RenderedList, RenderedOption, RenderedSection,
    RenderedSectionView,
};
use crate::views::{group_views, opt, views, vres};

verus! {

broadcast use group_views;

pub const MAX_BINDINGS: usize = 256;

pub const MAX_PRESENT_OPTIONS: usize = 64;

pub const MAX_BATCH_BYTES: usize = 131072;

pub const MAX_CHANGES: usize = 32;

/// A native check of a staged package.
#[derive(Debug, Clone, Copy, PartialEq, Eq, Structural)]
pub enum OpenWrtNetworkValidation {
    /// Parse and export the staged package with `uci -c <staging-dir> export network`.
    UciExport,
}

/// A complete staging artifact. Nothing in it has been executed.
#[derive(Debug, Clone, PartialEq, Eq)]
pub struct OpenWrtNetworkStage {
    pub uci_batch: String,
    pub dhcp_uci_batch: String,
    pub validations: Vec<OpenWrtNetworkValidation>,
    pub activation_service: &'static str,
    pub activation_action: &'static str,
}

#[verifier::ext_equal]
pub struct OpenWrtNetworkStageView {
    pub uci_batch: Seq<char>,
    pub dhcp_uci_batch: Seq<char>,
    pub validations: Seq<OpenWrtNetworkValidation>,
    pub activation_service: Seq<char>,
    pub activation_action: Seq<char>,
}

impl View for OpenWrtNetworkStage {
    type V = OpenWrtNetworkStageView;

    open spec fn view(&self) -> OpenWrtNetworkStageView {
        OpenWrtNetworkStageView {
            uci_batch: self.uci_batch@,
            dhcp_uci_batch: self.dhcp_uci_batch@,
            validations: self.validations@,
            activation_service: self.activation_service@,
            activation_action: self.activation_action@,
        }
    }
}

/// What has been rendered so far, and which section names are taken.
pub struct StageDraft {
    pub batch: String,
    pub dhcp_batch: String,
    pub reserved: Vec<String>,
    pub dhcp_reserved: Vec<String>,
}

#[verifier::ext_equal]
pub struct StageDraftView {
    pub batch: Seq<char>,
    pub dhcp_batch: Seq<char>,
    pub reserved: Seq<Seq<char>>,
    pub dhcp_reserved: Seq<Seq<char>>,
}

impl View for StageDraft {
    type V = StageDraftView;

    open spec fn view(&self) -> StageDraftView {
        StageDraftView {
            batch: self.batch@,
            dhcp_batch: self.dhcp_batch@,
            reserved: views(self.reserved@),
            dhcp_reserved: views(self.dhcp_reserved@),
        }
    }
}

/// The object that a change is about.
pub open spec fn subject(c: NetworkPlannedChangeView) -> Option<NetworkObjectView> {
    match c.after {
        Some(o) => Some(o),
        None => c.before,
    }
}

pub open spec fn subject_valid(c: NetworkPlannedChangeView) -> bool {
    match c.after {
        Some(_) => c.after_checks.valid,
        None => c.before_checks.valid,
    }
}

/// The object of an identity in an inventory.
pub open spec fn stored(objects: Seq<NetworkObjectView>, kind: Seq<char>, id: Seq<char>) -> Option<
    NetworkObjectView,
> {
    let at = object_from(objects, kind, id, 0);
    if at < objects.len() {
        Some(objects[at])
    } else {
        None
    }
}

pub open spec fn same_subject(a: NetworkPlannedChangeView, b: NetworkPlannedChangeView) -> bool {
    subject(a) is Some && subject(b) is Some && subject(a)->Some_0.kind() == subject(
        b,
    )->Some_0.kind() && subject(a)->Some_0.id() == subject(b)->Some_0.id()
}

/// Whether a change before `i` is about the same object as the change at `i`.
pub open spec fn touched_before(changes: Seq<NetworkPlannedChangeView>, i: int) -> bool {
    exists|j: int| 0 <= j < i && same_subject(#[trigger] changes[j], changes[i])
}

/// Whether a change agrees with its own metadata and with the inventory.
pub open spec fn change_matches(
    changes: Seq<NetworkPlannedChangeView>,
    objects: Seq<NetworkObjectView>,
    i: int,
) -> Result<(), NetworkRenderErrorView> {
    let c = changes[i];
    match subject(c) {
        None => Err(NetworkRenderErrorView::PlanMismatch),
        Some(o) => {
            let held = stored(objects, o.kind(), o.id());
            if touched_before(changes, i) || c.diff.object.kind != o.kind() || c.diff.object.id
                != o.id() || c.diff.object.ownership != o.ownership() {
                Err(NetworkRenderErrorView::PlanMismatch)
            } else if (c.before is Some && c.before_checks.digest is None) || (c.after is Some
                && c.after_checks.digest is None) {
                Err(NetworkRenderErrorView::InvalidObject)
            } else if c.diff.before_digest != (if c.before is Some {
                c.before_checks.digest
            } else {
                None
            }) || c.diff.after_digest != (if c.after is Some {
                c.after_checks.digest
            } else {
                None
            }) || c.diff.object.expected_version != c.diff.before_digest {
                Err(NetworkRenderErrorView::PlanMismatch)
            } else if match c.diff.operation {
                ChangeOperation::Create => c.before is None && c.after is Some && held is None,
                ChangeOperation::Update => c.before == held && c.after is Some,
                ChangeOperation::Move => c.before == held && c.after is Some,
                ChangeOperation::Delete => c.before == held && c.after is None,
            } {
                Ok(())
            } else {
                Err(NetworkRenderErrorView::PlanMismatch)
            }
        },
    }
}

/// Whether the changes from `i` on agree with their metadata and the inventory.
pub open spec fn changes_match(
    changes: Seq<NetworkPlannedChangeView>,
    objects: Seq<NetworkObjectView>,
    i: int,
) -> Result<(), NetworkRenderErrorView>
    decreases changes.len() - i,
{
    if i < 0 || i >= changes.len() {
        Ok(())
    } else {
        match change_matches(changes, objects, i) {
            Err(e) => Err(e),
            Ok(()) => changes_match(changes, objects, i + 1),
        }
    }
}

pub open spec fn identities_distinct(objects: Seq<NetworkObjectView>) -> bool {
    forall|a: int, b: int|
        0 <= a < b < objects.len() ==> !((#[trigger] objects[a]).kind() == (
        #[trigger] objects[b]).kind() && objects[a].id() == objects[b].id())
}

pub open spec fn plan_matches(
    changes: Seq<NetworkPlannedChangeView>,
    objects: Seq<NetworkObjectView>,
) -> Result<(), NetworkRenderErrorView> {
    if changes.len() == 0 || changes.len() > MAX_CHANGES {
        Err(NetworkRenderErrorView::PlanMismatch)
    } else if !identities_distinct(objects) {
        Err(NetworkRenderErrorView::DuplicateInventoryObject)
    } else {
        changes_match(changes, objects, 0)
    }
}

pub open spec fn is_kind(kind: Seq<char>) -> bool {
    kind == "interface"@ || kind == "bridge"@ || kind == "vlan"@ || kind == "route"@ || kind
        == "policy_rule"@
}

pub open spec fn is_type_of(section_type: Seq<char>, kind: Seq<char>) -> bool {
    (kind == "interface"@ && section_type == "interface"@) || ((kind == "bridge"@ || kind
        == "vlan"@) && section_type == "device"@) || (kind == "route"@ && (section_type == "route"@
        || section_type == "route6"@)) || (kind == "policy_rule"@ && (section_type == "rule"@
        || section_type == "rule6"@))
}

pub open spec fn is_safe_id(s: Seq<char>) -> bool {
    0 < s.len() && byte_len(s) <= 64 && forall|i: int|
        0 <= i < s.len() ==> is_alnum(#[trigger] s[i]) || s[i] == '-' || s[i] == '_' || s[i] == '.'
            || s[i] == ':' || s[i] == '@'
}

pub open spec fn all_identifiers(s: Seq<Seq<char>>) -> bool {
    forall|i: int| 0 <= i < s.len() ==> is_identifier(#[trigger] s[i])
}

pub open spec fn binding_safe(b: OpenWrtNetworkObjectBindingView) -> bool {
    is_kind(b.kind) && is_safe_id(b.id) && is_type_of(b.section_type, b.kind) && is_section(
        b.section,
        b.section_type,
    ) && b.present_options.len() <= MAX_PRESENT_OPTIONS && all_identifiers(b.present_options)
}

/// Whether the bindings from `i` on are safe and clash with none before them.
pub open spec fn bindings_valid(
    bindings: Seq<OpenWrtNetworkObjectBindingView>,
    i: int,
) -> Result<(), NetworkRenderErrorView>
    decreases bindings.len() - i,
{
    if i < 0 || i >= bindings.len() {
        Ok(())
    } else if !binding_safe(bindings[i]) {
        Err(NetworkRenderErrorView::UnsafeBinding)
    } else if exists|j: int|
        0 <= j < i && (#[trigger] bindings[j]).kind == bindings[i].kind && bindings[j].id
            == bindings[i].id {
        Err(NetworkRenderErrorView::DuplicateBinding)
    } else if exists|j: int| 0 <= j < i && (#[trigger] bindings[j]).section == bindings[i].section {
        Err(NetworkRenderErrorView::DuplicateSection)
    } else {
        bindings_valid(bindings, i + 1)
    }
}

/// The first binding of an object from `i` on.
pub open spec fn binding_from(
    bindings: Seq<OpenWrtNetworkObjectBindingView>,
    kind: Seq<char>,
    id: Seq<char>,
    i: int,
) -> Option<OpenWrtNetworkObjectBindingView>
    decreases bindings.len() - i,
{
    if i < 0 || i >= bindings.len() {
        None
    } else if bindings[i].kind == kind && bindings[i].id == id {
        Some(bindings[i])
    } else {
        binding_from(bindings, kind, id, i + 1)
    }
}

pub open spec fn sections_reserved(
    bindings: Seq<OpenWrtNetworkObjectBindingView>,
    reserved: Seq<Seq<char>>,
) -> bool {
    forall|i: int| 0 <= i < bindings.len() ==> reserved.contains((#[trigger] bindings[i]).section)
}

pub open spec fn owner_options(ownership: ObjectOwnership, id: Seq<char>) -> OptionsView {
    if ownership == ObjectOwnership::AgentOwned {
        seq![("mbed_managed"@, "1"@), ("mbed_id"@, id)]
    } else {
        Seq::empty()
    }
}

pub open spec fn decimal_of(o: Option<u32>) -> Option<Seq<char>> {
    match o {
        Some(n) => Some(decimal(n as nat)),
        None => None,
    }
}

pub open spec fn address_of(o: Option<IpAddr>) -> Option<Seq<char>> {
    match o {
        Some(a) => Some(address_format(a)),
        None => None,
    }
}

pub open spec fn network_of(o: Option<IpNetwork>) -> Option<Seq<char>> {
    match o {
        Some(a) => Some(network_format(a)),
        None => None,
    }
}

/// The text forms of the addresses of one family from `i` on, behind `acc`.
pub open spec fn family_texts(
    acc: Seq<Seq<char>>,
    addresses: Seq<IpNetwork>,
    v6: bool,
    i: int,
) -> Seq<Seq<char>>
    decreases addresses.len() - i,
{
    if i < 0 || i >= addresses.len() {
        acc
    } else if (addresses[i].address is V6) == v6 {
        family_texts(acc.push(network_format(addresses[i])), addresses, v6, i + 1)
    } else {
        family_texts(acc, addresses, v6, i + 1)
    }
}

/// The protocol that a pair of address modes is configured by.
pub open spec fn protocol_of(v4: NetworkAddressMode, v6: NetworkAddressMode) -> Option<Seq<char>> {
    match (v4, v6) {
        (NetworkAddressMode::Disabled, NetworkAddressMode::Disabled) => Some("none"@),
        (NetworkAddressMode::Static, NetworkAddressMode::Disabled) => Some("static"@),
        (NetworkAddressMode::Static, NetworkAddressMode::Static) => Some("static"@),
        (NetworkAddressMode::Disabled, NetworkAddressMode::Static) => Some("static"@),
        (NetworkAddressMode::Dhcp, NetworkAddressMode::Disabled) => Some("dhcp"@),
        (NetworkAddressMode::Disabled, NetworkAddressMode::Dhcp) => Some("dhcpv6"@),
        _ => None,
    }
}

pub open spec fn interface_section(v: NetworkInterfaceConfigView) -> Result<
    RenderedSectionView,
    NetworkRenderErrorView,
> {
    match protocol_of(v.ipv4_mode, v.ipv6_mode) {
        None => Err(NetworkRenderErrorView::UnsupportedField("combined address modes"@)),
        Some(proto) => {
            let base = owner_options(v.ownership, v.id).push(("proto"@, proto)).push(
                ("device"@, v.device),
            ).push(("disabled"@, flag(!v.enabled)));
            let link = put_some(put_some(base, "mtu"@, decimal_of(v.mtu)), "macaddr"@, v.mac_override);
            let dns = link.push(("peerdns"@, flag(v.peerdns)));
            let dhcp = put_some(
                put_some(
                    put_some(dns, "clientid"@, v.dhcp_client_id),
                    "vendorid"@,
                    v.dhcp_vendor_id,
                ),
                "hostname"@,
                v.dhcp_hostname,
            );
            Ok(
                RenderedSectionView {
                    section_type: "interface"@,
                    options: dhcp.push(("norelease"@, flag(v.dhcp_no_release))),
                    lists: seq![
                        ("ipaddr"@, family_texts(Seq::empty(), v.addresses, false, 0)),
                        ("ip6addr"@, family_texts(Seq::empty(), v.addresses, true, 0)),
                        (
                            "dns"@,
                            Seq::new(
                                v.dns_servers.len(),
                                |i: int| address_format(v.dns_servers[i]),
                            ),
                        ),
                        ("dns_search"@, v.dns_search),
                        (
                            "reqopts"@,
                            Seq::new(
                                v.dhcp_request_options.len(),
                                |i: int| decimal(v.dhcp_request_options[i] as nat),
                            ),
                        ),
                    ],
                },
            )
        },
    }
}

pub open spec fn route_type_name(t: NetworkRouteType) -> Seq<char> {
    match t {
        NetworkRouteType::Unicast => "unicast"@,
        NetworkRouteType::Blackhole => "blackhole"@,
        NetworkRouteType::Unreachable => "unreachable"@,
        NetworkRouteType::Prohibit => "prohibit"@,
    }
}

pub open spec fn action_name(t: NetworkPolicyAction) -> Seq<char> {
    match t {
        NetworkPolicyAction::Lookup => "lookup"@,
        NetworkPolicyAction::Blackhole => "blackhole"@,
        NetworkPolicyAction::Unreachable => "unreachable"@,
        NetworkPolicyAction::Prohibit => "prohibit"@,
    }
}

pub open spec fn route_section(v: NetworkRouteView) -> RenderedSectionView {
    let base = owner_options(v.ownership, v.id).push(
        ("target"@, network_format(v.destination)),
    ).push(("table"@, decimal(v.table as nat))).push(("disabled"@, flag(!v.enabled))).push(
        ("type"@, route_type_name(v.route_type)),
    );
    RenderedSectionView {
        section_type: if v.destination.address is V4 {
            "route"@
        } else {
            "route6"@
        },
        options: put_some(
            put_some(
                put_some(
                    put_some(base, "gateway"@, address_of(v.gateway)),
                    "interface"@,
                    v.output_interface,
                ),
                "source"@,
                address_of(v.preferred_source),
            ),
            "metric"@,
            decimal_of(v.metric),
        ),
        lists: Seq::empty(),
    }
}

pub open spec fn mark_text(mark: Option<u32>, mask: Option<u32>) -> Option<Seq<char>> {
    match (mark, mask) {
        (Some(m), Some(k)) => Some("0x"@ + hex(m as nat) + "/0x"@ + hex(k as nat)),
        _ => None,
    }
}

pub open spec fn policy_rule_section(v: NetworkPolicyRuleView) -> RenderedSectionView {
    let base = owner_options(v.ownership, v.id).push(("priority"@, decimal(v.priority as nat))).push(
        ("disabled"@, flag(!v.enabled)),
    ).push(("action"@, action_name(v.action)));
    let lookup = put_some(
        base,
        "lookup"@,
        if v.action == NetworkPolicyAction::Lookup {
            Some(decimal(v.table as nat))
        } else {
            None
        },
    );
    let ends = put_some(
        put_some(lookup, "src"@, network_of(v.source)),
        "dest"@,
        network_of(v.destination),
    );
    let links = put_some(put_some(ends, "in"@, v.input_interface), "out"@, v.output_interface);
    RenderedSectionView {
        section_type: if v.family == NetworkFamily::Ipv4 {
            "rule"@
        } else {
            "rule6"@
        },
        options: put_some(links, "mark"@, mark_text(v.fwmark, v.fwmark_mask)),
        lists: Seq::empty(),
    }
}

pub open spec fn vlan_type_name(p: NetworkVlanProtocol) -> Seq<char> {
    match p {
        NetworkVlanProtocol::Ieee8021Q => "8021q"@,
        NetworkVlanProtocol::Ieee8021Ad => "8021ad"@,
    }
}

/// The section that an object is written as, given whether the object model accepts the object.
pub open spec fn object_section(o: NetworkObjectView, valid: bool) -> Result<
    RenderedSectionView,
    NetworkRenderErrorView,
> {
    if !valid {
        Err(NetworkRenderErrorView::InvalidObject)
    } else {
        match o {
            NetworkObjectView::Interface(v) => interface_section(v),
            NetworkObjectView::Bridge(v) => Ok(
                RenderedSectionView {
                    section_type: "device"@,
                    options: put_some(
                        owner_options(v.ownership, v.id).push(("name"@, v.id)).push(
                            ("type"@, "bridge"@),
                        ).push(("disabled"@, flag(!v.enabled))).push(("stp"@, flag(v.stp))).push(
                            ("vlan_filtering"@, flag(v.vlan_filtering)),
                        ),
                        "mtu"@,
                        decimal_of(v.mtu),
                    ),
                    lists: seq![("ports"@, v.ports)],
                },
            ),
            NetworkObjectView::Vlan(v) => Ok(
                RenderedSectionView {
                    section_type: "device"@,
                    options: put_some(
                        owner_options(v.ownership, v.id).push(("name"@, v.id)).push(
                            ("type"@, vlan_type_name(v.protocol)),
                        ).push(("ifname"@, v.parent)).push(("vid"@, decimal(v.vlan_id as nat))).push(
                            ("disabled"@, flag(!v.enabled)),
                        ),
                        "mtu"@,
                        decimal_of(v.mtu),
                    ),
                    lists: Seq::empty(),
                },
            ),
            NetworkObjectView::Route(v) => if v.output_interface is None || v.table > 65535 {
                Err(NetworkRenderErrorView::UnsupportedField("OpenWrt route interface or table"@))
            } else {
                Ok(route_section(v))
            },
            NetworkObjectView::PolicyRule(v) => if v.table > 65535 {
                Err(NetworkRenderErrorView::UnsupportedField("OpenWrt policy rule table"@))
            } else {
                Ok(policy_rule_section(v))
            },
            NetworkObjectView::Bond(_) => Err(NetworkRenderErrorView::UnsupportedField("bond"@)),
            NetworkObjectView::Vrf(_) => Err(NetworkRenderErrorView::UnsupportedField("VRF"@)),
        }
    }
}

/// The options of a kind that an update may remove.
pub open spec fn supported_names(kind: Seq<char>) -> Seq<Seq<char>> {
    if kind == "interface"@ {
        seq![
            "mbed_managed"@,
            "mbed_id"@,
            "proto"@,
            "device"@,
            "ifname"@,
            "disabled"@,
            "auto"@,
            "ipaddr"@,
            "netmask"@,
            "ip6addr"@,
            "mtu"@,
            "macaddr"@,
            "peerdns"@,
            "dns"@,
            "dns_search"@,
            "clientid"@,
            "vendorid"@,
            "hostname"@,
            "reqopts"@,
            "norelease"@,
        ]
    } else if kind == "bridge"@ {
        seq![
            "mbed_managed"@,
            "mbed_id"@,
            "name"@,
            "type"@,
            "disabled"@,
            "ports"@,
            "stp"@,
            "vlan_filtering"@,
            "mtu"@,
        ]
    } else if kind == "vlan"@ {
        seq![
            "mbed_managed"@,
            "mbed_id"@,
            "name"@,
            "type"@,
            "disabled"@,
            "ifname"@,
            "vid"@,
            "mtu"@,
        ]
    } else if kind == "route"@ {
        seq![
            "mbed_managed"@,
            "mbed_id"@,
            "name"@,
            "disabled"@,
            "target"@,
            "netmask"@,
            "gateway"@,
            "interface"@,
            "source"@,
            "table"@,
            "metric"@,
            "type"@,
        ]
    } else if kind == "policy_rule"@ {
        seq![
            "mbed_managed"@,
            "mbed_id"@,
            "name"@,
            "disabled"@,
            "priority"@,
            "src"@,
            "dest"@,
            "in"@,
            "out"@,
            "mark"@,
            "lookup"@,
            "action"@,
        ]
    } else {
        Seq::empty()
    }
}

/// The options of a DHCP section that an update may remove.
pub open spec fn supported_dhcp_names() -> Seq<Seq<char>> {
    seq![
        "mbed_managed"@,
        "mbed_id"@,
        "interface"@,
        "ignore"@,
        "start"@,
        "limit"@,
        "leasetime"@,
        "force"@,
        "dhcpv6"@,
        "ra"@,
        "ndp"@,
        "dhcp_option"@,
    ]
}

/// The name of a new section: the identity of an interface, else one made of the digest.
pub open spec fn fresh_section(o: NetworkObjectView, digest: Seq<char>) -> Result<
    Seq<char>,
    NetworkRenderErrorView,
> {
    if !is_digest(digest) {
        Err(NetworkRenderErrorView::PlanMismatch)
    } else {
        let tail = lower_all(digest.take(16));
        match o {
            NetworkObjectView::Interface(v) => if is_identifier(v.id) {
                Ok(v.id)
            } else {
                Err(NetworkRenderErrorView::UnsupportedField("OpenWrt interface identifiers"@))
            },
            NetworkObjectView::Bridge(_) => Ok("mbed_b_"@ + tail),
            NetworkObjectView::Vlan(_) => Ok("mbed_v_"@ + tail),
            NetworkObjectView::Route(_) => Ok("mbed_r_"@ + tail),
            NetworkObjectView::PolicyRule(_) => Ok("mbed_p_"@ + tail),
            NetworkObjectView::Bond(_) => Err(NetworkRenderErrorView::UnsupportedField("bond"@)),
            NetworkObjectView::Vrf(_) => Err(NetworkRenderErrorView::UnsupportedField("VRF"@)),
        }
    }
}

pub open spec fn unsafe_value(t: Option<Seq<char>>) -> Result<Seq<char>, NetworkRenderErrorView> {
    match t {
        Some(s) => Ok(s),
        None => Err(NetworkRenderErrorView::UnsafeValue),
    }
}

/// The batch with the commands that create an object behind it.
pub open spec fn created(
    batch: Seq<char>,
    section: Seq<char>,
    o: NetworkObjectView,
    valid: bool,
) -> Result<Seq<char>, NetworkRenderErrorView> {
    match object_section(o, valid) {
        Err(e) => Err(e),
        Ok(s) => unsafe_value(
            section_text(
                batch + create_line("network"@, section, s.section_type),
                "network"@,
                section,
                s,
            ),
        ),
    }
}

/// The batch with the commands that rewrite a bound object behind it.
pub open spec fn updated(
    batch: Seq<char>,
    b: OpenWrtNetworkObjectBindingView,
    o: NetworkObjectView,
    valid: bool,
) -> Result<Seq<char>, NetworkRenderErrorView> {
    match object_section(o, valid) {
        Err(e) => Err(e),
        Ok(s) => if s.section_type != b.section_type {
            Err(NetworkRenderErrorView::PlanMismatch)
        } else {
            unsafe_value(
                section_text(
                    cleared_text(
                        batch,
                        "network"@,
                        b.section,
                        b.present_options,
                        supported_names(o.kind()),
                        0,
                    ),
                    "network"@,
                    b.section,
                    s,
                ),
            )
        },
    }
}

pub open spec fn dhcp_mode_name(m: NetworkDhcpMode) -> Seq<char> {
    match m {
        NetworkDhcpMode::Disabled => "disabled"@,
        NetworkDhcpMode::Server => "server"@,
        NetworkDhcpMode::Relay => "relay"@,
        NetworkDhcpMode::Hybrid => "hybrid"@,
    }
}

/// The section that a DHCP server is written as.
pub open spec fn dhcp_section_of(
    id: Seq<char>,
    server: NetworkDhcpServerConfigView,
    agent_owned: bool,
) -> RenderedSectionView {
    RenderedSectionView {
        section_type: "dhcp"@,
        options: (if agent_owned {
            owner_options(ObjectOwnership::AgentOwned, id)
        } else {
            Seq::empty()
        }).push(("interface"@, id)).push(("ignore"@, flag(!server.enabled))).push(
            ("start"@, decimal(server.start as nat)),
        ).push(("limit"@, decimal(server.limit as nat))).push(("leasetime"@, server.lease_time)).push(
            ("force"@, flag(server.force)),
        ).push(("dhcpv6"@, dhcp_mode_name(server.dhcpv6_mode))).push(
            ("ra"@, dhcp_mode_name(server.ra_mode)),
        ).push(("ndp"@, dhcp_mode_name(server.ndp_mode))),
        lists: seq![
            (
                "dhcp_option"@,
                Seq::new(
                    server.dhcp_options.len(),
                    |i: int|
                        decimal(server.dhcp_options[i].code as nat) + ","@
                            + server.dhcp_options[i].value,
                ),
            ),
        ],
    }
}

pub open spec fn dhcp_text(
    batch: Seq<char>,
    section: Seq<char>,
    id: Seq<char>,
    server: NetworkDhcpServerConfigView,
    agent_owned: bool,
) -> Result<Seq<char>, NetworkRenderErrorView> {
    unsafe_value(
        section_text(batch, "dhcp"@, section, dhcp_section_of(id, server, agent_owned)),
    )
}

/// A draft in which a DHCP section for an interface has been opened.
pub open spec fn dhcp_opened(d: StageDraftView, id: Seq<char>) -> Result<
    StageDraftView,
    NetworkRenderErrorView,
> {
    if !is_identifier(id) {
        Err(NetworkRenderErrorView::UnsupportedField("OpenWrt DHCP interface identifier"@))
    } else if d.dhcp_reserved.contains(id) {
        Err(NetworkRenderErrorView::DuplicateSection)
    } else {
        Ok(
            StageDraftView {
                dhcp_reserved: d.dhcp_reserved.push(id),
                dhcp_batch: d.dhcp_batch + create_line("dhcp"@, id, "dhcp"@),
                ..d
            },
        )
    }
}

pub open spec fn dhcp_filled(
    d: StageDraftView,
    section: Seq<char>,
    id: Seq<char>,
    server: NetworkDhcpServerConfigView,
    agent_owned: bool,
) -> Result<StageDraftView, NetworkRenderErrorView> {
    match dhcp_text(d.dhcp_batch, section, id, server, agent_owned) {
        Err(e) => Err(e),
        Ok(t) => Ok(StageDraftView { dhcp_batch: t, ..d }),
    }
}

pub open spec fn dhcp_created(d: StageDraftView, o: NetworkObjectView) -> Result<
    StageDraftView,
    NetworkRenderErrorView,
> {
    match o {
        NetworkObjectView::Interface(v) => match v.dhcp_server {
            None => Ok(d),
            Some(server) => match dhcp_opened(d, v.id) {
                Err(e) => Err(e),
                Ok(next) => dhcp_filled(next, v.id, v.id, server, true),
            },
        },
        _ => Ok(d),
    }
}

pub open spec fn dhcp_removed(d: StageDraftView, b: OpenWrtNetworkObjectBindingView) -> Result<
    StageDraftView,
    NetworkRenderErrorView,
> {
    match b.dhcp_section {
        None => Ok(d),
        Some(section) => if b.dhcp_agent_owned {
            Ok(
                StageDraftView {
                    dhcp_batch: d.dhcp_batch + delete_line("dhcp"@, section),
                    ..d
                },
            )
        } else {
            Err(NetworkRenderErrorView::UnsupportedField("native OpenWrt DHCP server removal"@))
        },
    }
}

pub open spec fn dhcp_updated(
    d: StageDraftView,
    b: OpenWrtNetworkObjectBindingView,
    o: NetworkObjectView,
) -> Result<StageDraftView, NetworkRenderErrorView> {
    match o {
        NetworkObjectView::Interface(v) => match v.dhcp_server {
            None => dhcp_removed(d, b),
            Some(server) => match b.dhcp_section {
                Some(section) => dhcp_filled(
                    StageDraftView {
                        dhcp_batch: cleared_text(
                            d.dhcp_batch,
                            "dhcp"@,
                            section,
                            b.dhcp_present_options,
                            supported_dhcp_names(),
                            0,
                        ),
                        ..d
                    },
                    section,
                    v.id,
                    server,
                    v.ownership == ObjectOwnership::AgentOwned,
                ),
                None => match dhcp_opened(d, v.id) {
                    Err(e) => Err(e),
                    Ok(next) => dhcp_filled(
                        next,
                        v.id,
                        v.id,
                        server,
                        v.ownership == ObjectOwnership::AgentOwned,
                    ),
                },
            },
        },
        _ => Ok(d),
    }
}

pub open spec fn dhcp_deleted(
    d: StageDraftView,
    b: OpenWrtNetworkObjectBindingView,
    o: NetworkObjectView,
) -> Result<StageDraftView, NetworkRenderErrorView> {
    match o {
        NetworkObjectView::Interface(_) => dhcp_removed(d, b),
        _ => Ok(d),
    }
}

/// The draft behind one change, before its size is looked at.
pub open spec fn change_drafted(
    d: StageDraftView,
    c: NetworkPlannedChangeView,
    bindings: Seq<OpenWrtNetworkObjectBindingView>,
) -> Result<StageDraftView, NetworkRenderErrorView> {
    match subject(c) {
        None => Err(NetworkRenderErrorView::PlanMismatch),
        Some(o) => match c.diff.operation {
            ChangeOperation::Create => match c.diff.after_digest {
                None => Err(NetworkRenderErrorView::PlanMismatch),
                Some(digest) => match fresh_section(o, digest) {
                    Err(e) => Err(e),
                    Ok(section) => if d.reserved.contains(section) {
                        Err(NetworkRenderErrorView::DuplicateSection)
                    } else {
                        match created(d.batch, section, o, subject_valid(c)) {
                            Err(e) => Err(e),
                            Ok(batch) => dhcp_created(
                                StageDraftView { batch, reserved: d.reserved.push(section), ..d },
                                o,
                            ),
                        }
                    },
                },
            },
            ChangeOperation::Delete => match binding_from(bindings, o.kind(), o.id(), 0) {
                None => Err(NetworkRenderErrorView::MissingBinding),
                Some(b) => dhcp_deleted(
                    StageDraftView { batch: d.batch + delete_line("network"@, b.section), ..d },
                    b,
                    o,
                ),
            },
            _ => match binding_from(bindings, o.kind(), o.id(), 0) {
                None => Err(NetworkRenderErrorView::MissingBinding),
                Some(b) => match updated(d.batch, b, o, subject_valid(c)) {
                    Err(e) => Err(e),
                    Ok(batch) => dhcp_updated(StageDraftView { batch, ..d }, b, o),
                },
            },
        },
    }
}

/// The draft behind the changes from `i` on.
pub open spec fn drafted(
    d: StageDraftView,
    changes: Seq<NetworkPlannedChangeView>,
    bindings: Seq<OpenWrtNetworkObjectBindingView>,
    i: int,
) -> Result<StageDraftView, NetworkRenderErrorView>
    decreases changes.len() - i,
{
    if i < 0 || i >= changes.len() {
        Ok(d)
    } else {
        match change_drafted(d, changes[i], bindings) {
            Err(e) => Err(e),
            Ok(next) => if byte_len(next.batch) + byte_len(next.dhcp_batch) > MAX_BATCH_BYTES {
                Err(NetworkRenderErrorView::Capacity)
            } else {
                drafted(next, changes, bindings, i + 1)
            },
        }
    }
}

/// The stage that a plan becomes against a snapshot.
pub open spec fn network_stage(
    changes: Seq<NetworkPlannedChangeView>,
    s: OpenWrtNetworkInventorySnapshotView,
) -> Result<OpenWrtNetworkStageView, NetworkRenderErrorView> {
    match plan_matches(changes, s.inventory.objects) {
        Err(e) => Err(e),
        Ok(()) => if s.bindings.len() > MAX_BINDINGS {
            Err(NetworkRenderErrorView::Capacity)
        } else {
            match bindings_valid(s.bindings, 0) {
                Err(e) => Err(e),
                Ok(()) => if !s.occupied_sections.no_duplicates() {
                    Err(NetworkRenderErrorView::DuplicateSection)
                } else if !sections_reserved(s.bindings, s.occupied_sections) {
                    Err(NetworkRenderErrorView::UnsafeBinding)
                } else {
                    match drafted(
                        StageDraftView {
                            batch: Seq::empty(),
                            dhcp_batch: Seq::empty(),
                            reserved: s.occupied_sections,
                            dhcp_reserved: s.dhcp_occupied_sections,
                        },
                        changes,
                        s.bindings,
                        0,
                    ) {
                        Err(e) => Err(e),
                        Ok(d) => Ok(
                            OpenWrtNetworkStageView {
                                uci_batch: d.batch + "commit network\n"@,
                                dhcp_uci_batch: if d.dhcp_batch.len() > 0 {
                                    d.dhcp_batch + "commit dhcp\n"@
                                } else {
                                    d.dhcp_batch
                                },
                                validations: seq![OpenWrtNetworkValidation::UciExport],
                                activation_service: "/etc/init.d/network"@,
                                activation_action: "reload"@,
                            },
                        ),
                    }
                },
            }
        },
    }
}

fn ownership_options(ownership: ObjectOwnership, id: &str) -> (r: Vec<RenderedOption>)
    ensures
        views(r@) == owner_options(ownership, id@),
{
    let mut r: Vec<RenderedOption> = Vec::new();
    if ownership == ObjectOwnership::AgentOwned {
        push_text(&mut r, "mbed_managed", "1");
        push_text(&mut r, "mbed_id", id);
    }
    assert(views(r@) =~= owner_options(ownership, id@));
    r
}

fn push_u32(options: &mut Vec<RenderedOption>, name: &'static str, value: &Option<u32>)
    ensures
        views(final(options)@) == put_some(views(old(options)@), name@, decimal_of(*value)),
{
    match value {
        Some(n) => push_option(options, name, decimal_text(*n as u64)),
        None => {},
    }
}

fn texts_of_family(addresses: &Vec<IpNetwork>, v6: bool) -> (r: Vec<String>)
    ensures
        views(r@) == family_texts(Seq::empty(), addresses@, v6, 0),
{
    let mut r: Vec<String> = Vec::new();
    let mut i: usize = 0;
    while i < addresses.len()
        invariant
            i <= addresses@.len(),
            family_texts(views(r@), addresses@, v6, i as int) == family_texts(
                Seq::empty(),
                addresses@,
                v6,
                0,
            ),
        decreases addresses@.len() - i,
    {
        if addresses[i].address.is_ipv6() == v6 {
            r.push(addresses[i].text());
        }
        i = i + 1;
    }
    r
}

fn address_texts(addresses: &Vec<IpAddr>) -> (r: Vec<String>)
    ensures
        views(r@) == Seq::new(addresses@.len(), |i: int| address_format(addresses@[i])),
{
    let mut r: Vec<String> = Vec::new();
    let mut i: usize = 0;
    while i < addresses.len()
        invariant
            i <= addresses@.len(),
            r@.len() == i,
            forall|j: int| 0 <= j < i ==> #[trigger] views(r@)[j] == address_format(addresses@[j]),
        decreases addresses@.len() - i,
    {
        r.push(addresses[i].text());
        i = i + 1;
    }
    assert(views(r@) =~= Seq::new(addresses@.len(), |i: int| address_format(addresses@[i])));
    r
}

fn number_texts(numbers: &Vec<u16>) -> (r: Vec<String>)
    ensures
        views(r@) == Seq::new(numbers@.len(), |i: int| decimal(numbers@[i] as nat)),
{
    let mut r: Vec<String> = Vec::new();
    let mut i: usize = 0;
    while i < numbers.len()
        invariant
            i <= numbers@.len(),
            r@.len() == i,
            forall|j: int| 0 <= j < i ==> #[trigger] views(r@)[j] == decimal(numbers@[j] as nat),
        decreases numbers@.len() - i,
    {
        r.push(decimal_text(numbers[i] as u64));
        i = i + 1;
    }
    assert(views(r@) =~= Seq::new(numbers@.len(), |i: int| decimal(numbers@[i] as nat)));
    r
}

fn render_interface(value: &NetworkInterfaceConfig) -> (r: Result<
    RenderedSection,
    NetworkRenderError,
>)
    ensures
        vres(r) == interface_section(value@),
{
    let proto = match (value.ipv4_mode, value.ipv6_mode) {
        (NetworkAddressMode::Disabled, NetworkAddressMode::Disabled) => "none",
        (NetworkAddressMode::Static, NetworkAddressMode::Disabled) => "static",
        (NetworkAddressMode::Static, NetworkAddressMode::Static) => "static",
        (NetworkAddressMode::Disabled, NetworkAddressMode::Static) => "static",
        (NetworkAddressMode::Dhcp, NetworkAddressMode::Disabled) => "dhcp",
        (NetworkAddressMode::Disabled, NetworkAddressMode::Dhcp) => "dhcpv6",
        _ => {
            return Err(NetworkRenderError::UnsupportedField("combined address modes"));
        },
    };
    let mut options = ownership_options(value.ownership, value.id.as_str());
    push_text(&mut options, "proto", proto);
    push_text(&mut options, "device", value.device.as_str());
    push_option(&mut options, "disabled", bool_value(!value.enabled));
    push_u32(&mut options, "mtu", &value.mtu);
    push_some(&mut options, "macaddr", &value.mac_override);
    push_option(&mut options, "peerdns", bool_value(value.peerdns));
    push_some(&mut options, "clientid", &value.dhcp_client_id);
    push_some(&mut options, "vendorid", &value.dhcp_vendor_id);
    push_some(&mut options, "hostname", &value.dhcp_hostname);
    push_option(&mut options, "norelease", bool_value(value.dhcp_no_release));
    let mut lists: Vec<RenderedList> = Vec::new();
    assert(views(value.addresses@) =~= value.addresses@);
    assert(views(value.dns_servers@) =~= value.dns_servers@);
    assert(views(value.dhcp_request_options@) =~= value.dhcp_request_options@);
    push_list(&mut lists, "ipaddr", texts_of_family(&value.addresses, false));
    push_list(&mut lists, "ip6addr", texts_of_family(&value.addresses, true));
    push_list(&mut lists, "dns", address_texts(&value.dns_servers));
    push_list(&mut lists, "dns_search", copy_list(&value.dns_search));
    push_list(&mut lists, "reqopts", number_texts(&value.dhcp_request_options));
    let r = RenderedSection { section_type: "interface", options, lists };
    assert(interface_section(value@) is Ok);
    assert(r@ =~= interface_section(value@)->Ok_0);
    Ok(r)
}

fn route_type(value: NetworkRouteType) -> (r: &'static str)
    ensures
        r@ == route_type_name(value),
{
    match value {
        NetworkRouteType::Unicast => "unicast",
        NetworkRouteType::Blackhole => "blackhole",
        NetworkRouteType::Unreachable => "unreachable",
        NetworkRouteType::Prohibit => "prohibit",
    }
}

fn policy_action(value: NetworkPolicyAction) -> (r: &'static str)
    ensures
        r@ == action_name(value),
{
    match value {
        NetworkPolicyAction::Lookup => "lookup",
        NetworkPolicyAction::Blackhole => "blackhole",
        NetworkPolicyAction::Unreachable => "unreachable",
        NetworkPolicyAction::Prohibit => "prohibit",
    }
}

fn render_route(value: &NetworkRoute) -> (r: RenderedSection)
    ensures
        r@ == route_section(value@),
{
    let mut options = ownership_options(value.ownership, value.id.as_str());
    push_option(&mut options, "target", value.destination.text());
    push_option(&mut options, "table", decimal_text(value.table as u64));
    push_option(&mut options, "disabled", bool_value(!value.enabled));
    push_text(&mut options, "type", route_type(value.route_type));
    push_address(&mut options, "gateway", &value.gateway);
    push_some(&mut options, "interface", &value.output_interface);
    push_address(&mut options, "source", &value.preferred_source);
    push_u32(&mut options, "metric", &value.metric);
    let section_type = if value.destination.address.is_ipv4() {
        "route"
    } else {
        "route6"
    };
    RenderedSection { section_type, options, lists: Vec::new() }
}

fn render_policy_rule(value: &NetworkPolicyRule) -> (r: RenderedSection)
    ensures
        r@ == policy_rule_section(value@),
{
    let mut options = ownership_options(value.ownership, value.id.as_str());
    push_option(&mut options, "priority", decimal_text(value.priority as u64));
    push_option(&mut options, "disabled", bool_value(!value.enabled));
    push_text(&mut options, "action", policy_action(value.action));
    if value.action == NetworkPolicyAction::Lookup {
        push_option(&mut options, "lookup", decimal_text(value.table as u64));
    }
    push_network(&mut options, "src", &value.source);
    push_network(&mut options, "dest", &value.destination);
    push_some(&mut options, "in", &value.input_interface);
    push_some(&mut options, "out", &value.output_interface);
    match (value.fwmark, value.fwmark_mask) {
        (Some(mark), Some(mask)) => {
            let mut text = "0x".to_owned();
            text.append(hex_text(mark as u64).as_str());
            text.append("/0x");
            text.append(hex_text(mask as u64).as_str());
            push_option(&mut options, "mark", text);
        },
        _ => {},
    }
    let section_type = if value.family == NetworkFamily::Ipv4 {
        "rule"
    } else {
        "rule6"
    };
    RenderedSection { section_type, options, lists: Vec::new() }
}

fn render_object(object: &NetworkObject, valid: bool) -> (r: Result<
    RenderedSection,
    NetworkRenderError,
>)
    ensures
        vres(r) == object_section(object@, valid),
{
    if !valid {
        return Err(NetworkRenderError::InvalidObject);
    }
    match object {
        NetworkObject::Interface(value) => render_interface(value),
        NetworkObject::Bridge(value) => {
            let mut options = ownership_options(value.ownership, value.id.as_str());
            push_text(&mut options, "name", value.id.as_str());
            push_text(&mut options, "type", "bridge");
            push_option(&mut options, "disabled", bool_value(!value.enabled));
            push_option(&mut options, "stp", bool_value(value.stp));
            push_option(&mut options, "vlan_filtering", bool_value(value.vlan_filtering));
            push_u32(&mut options, "mtu", &value.mtu);
            let mut lists: Vec<RenderedList> = Vec::new();
            push_list(&mut lists, "ports", copy_list(&value.ports));
            assert(views(lists@) =~= seq![("ports"@, value@.ports)]);
            Ok(RenderedSection { section_type: "device", options, lists })
        },
        NetworkObject::Vlan(value) => {
            let mut options = ownership_options(value.ownership, value.id.as_str());
            push_text(&mut options, "name", value.id.as_str());
            let kind = match value.protocol {
                NetworkVlanProtocol::Ieee8021Q => "8021q",
                NetworkVlanProtocol::Ieee8021Ad => "8021ad",
            };
            push_text(&mut options, "type", kind);
            push_text(&mut options, "ifname", value.parent.as_str());
            push_option(&mut options, "vid", decimal_text(value.vlan_id as u64));
            push_option(&mut options, "disabled", bool_value(!value.enabled));
            push_u32(&mut options, "mtu", &value.mtu);
            Ok(RenderedSection { section_type: "device", options, lists: Vec::new() })
        },
        NetworkObject::Route(value) => {
            if value.output_interface.is_none() || value.table > 65535 {
                return Err(NetworkRenderError::UnsupportedField("OpenWrt route interface or table"));
            }
            Ok(render_route(value))
        },
        NetworkObject::PolicyRule(value) => {
            if value.table > 65535 {
                return Err(NetworkRenderError::UnsupportedField("OpenWrt policy rule table"));
            }
            Ok(render_policy_rule(value))
        },
        NetworkObject::Bond(_) => Err(NetworkRenderError::UnsupportedField("bond")),
        NetworkObject::Vrf(_) => Err(NetworkRenderError::UnsupportedField("VRF")),
    }
}

fn new_section_name(object: &NetworkObject, digest: &str) -> (r: Result<
    String,
    NetworkRenderError,
>)
    ensures
        vres(r) == fresh_section(object@, digest@),
{
    if !digest_like(digest) {
        return Err(NetworkRenderError::PlanMismatch);
    }
    let cs = chars_of(digest);
    let head = string_of(piece(cs.as_slice(), 0, 16));
    assert(head@ =~= digest@.take(16));
    let tail = lower_text(head.as_str());
    let prefix = match object {
        NetworkObject::Interface(value) => {
            if !safe_uci_identifier(value.id.as_str()) {
                return Err(NetworkRenderError::UnsupportedField("OpenWrt interface identifiers"));
            }
            return Ok(value.id.clone());
        },
        NetworkObject::Bridge(_) => "mbed_b_",
        NetworkObject::Vlan(_) => "mbed_v_",
        NetworkObject::Route(_) => "mbed_r_",
        NetworkObject::PolicyRule(_) => "mbed_p_",
        NetworkObject::Bond(_) => {
            return Err(NetworkRenderError::UnsupportedField("bond"));
        },
        NetworkObject::Vrf(_) => {
            return Err(NetworkRenderError::UnsupportedField("VRF"));
        },
    };
    let mut name = prefix.to_owned();
    name.append(tail.as_str());
    Ok(name)
}

/// The batch behind a step that succeeded, or the error.
pub open spec fn batch_result(
    r: Result<(), NetworkRenderError>,
    batch: Seq<char>,
) -> Result<Seq<char>, NetworkRenderErrorView> {
    match r {
        Ok(()) => Ok(batch),
        Err(e) => Err(e@),
    }
}

/// The draft behind a step that succeeded, or the error.
pub open spec fn draft_result(
    r: Result<(), NetworkRenderError>,
    d: StageDraftView,
) -> Result<StageDraftView, NetworkRenderErrorView> {
    match r {
        Ok(()) => Ok(d),
        Err(e) => Err(e@),
    }
}

fn render_create(batch: &mut String, section: &str, object: &NetworkObject, valid: bool) -> (r:
    Result<(), NetworkRenderError>)
    ensures
        batch_result(r, final(batch)@) == created(old(batch)@, section@, object@, valid),
{
    let rendered = match render_object(object, valid) {
        Ok(s) => s,
        Err(e) => {
            return Err(e);
        },
    };
    append_create(batch, "network", section, rendered.section_type);
    if append_section(batch, "network", section, &rendered) {
        Ok(())
    } else {
        Err(NetworkRenderError::UnsafeValue)
    }
}

fn clear_supported(
    batch: &mut String,
    kind: &str,
    section: &str,
    present: &Vec<String>,
)
    ensures
        final(batch)@ == cleared_text(
            old(batch)@,
            "network"@,
            section@,
            views(present@),
            supported_names(kind@),
            0,
        ),
{
    if same(kind, "interface") {
        let names = [
            "mbed_managed",
            "mbed_id",
            "proto",
            "device",
            "ifname",
            "disabled",
            "auto",
            "ipaddr",
            "netmask",
            "ip6addr",
            "mtu",
            "macaddr",
            "peerdns",
            "dns",
            "dns_search",
            "clientid",
            "vendorid",
            "hostname",
            "reqopts",
            "norelease",
        ];
        assert(views(names@) =~= supported_names(kind@));
        append_cleared(batch, "network", section, present, &names);
    } else if same(kind, "bridge") {
        let names = [
            "mbed_managed",
            "mbed_id",
            "name",
            "type",
            "disabled",
            "ports",
            "stp",
            "vlan_filtering",
            "mtu",
        ];
        assert(views(names@) =~= supported_names(kind@));
        append_cleared(batch, "network", section, present, &names);
    } else if same(kind, "vlan") {
        let names = [
            "mbed_managed",
            "mbed_id",
            "name",
            "type",
            "disabled",
            "ifname",
            "vid",
            "mtu",
        ];
        assert(views(names@) =~= supported_names(kind@));
        append_cleared(batch, "network", section, present, &names);
    } else if same(kind, "route") {
        let names = [
            "mbed_managed",
            "mbed_id",
            "name",
            "disabled",
            "target",
            "netmask",
            "gateway",
            "interface",
            "source",
            "table",
            "metric",
            "type",
        ];
        assert(views(names@) =~= supported_names(kind@));
        append_cleared(batch, "network", section, present, &names);
    } else if same(kind, "policy_rule") {
        let names = [
            "mbed_managed",
            "mbed_id",
            "name",
            "disabled",
            "priority",
            "src",
            "dest",
            "in",
            "out",
            "mark",
            "lookup",
            "action",
        ];
        assert(views(names@) =~= supported_names(kind@));
        append_cleared(batch, "network", section, present, &names);
    } else {
        let names: [&'static str; 0] = [];
        assert(views(names@) =~= supported_names(kind@));
        append_cleared(batch, "network", section, present, &names);
    }
}

fn render_update(
    batch: &mut String,
    binding: &OpenWrtNetworkObjectBinding,
    object: &NetworkObject,
    valid: bool,
) -> (r: Result<(), NetworkRenderError>)
    ensures
        batch_result(r, final(batch)@) == updated(old(batch)@, binding@, object@, valid),
{
    let rendered = match render_object(object, valid) {
        Ok(s) => s,
        Err(e) => {
            return Err(e);
        },
    };
    if !same(rendered.section_type, binding.section_type.as_str()) {
        return Err(NetworkRenderError::PlanMismatch);
    }
    clear_supported(batch, object.kind(), binding.section.as_str(), &binding.present_options);
    if append_section(batch, "network", binding.section.as_str(), &rendered) {
        Ok(())
    } else {
        Err(NetworkRenderError::UnsafeValue)
    }
}

fn dhcp_mode_text(value: NetworkDhcpMode) -> (r: &'static str)
    ensures
        r@ == dhcp_mode_name(value),
{
    match value {
        NetworkDhcpMode::Disabled => "disabled",
        NetworkDhcpMode::Server => "server",
        NetworkDhcpMode::Relay => "relay",
        NetworkDhcpMode::Hybrid => "hybrid",
    }
}

fn render_dhcp_section(id: &str, server: &NetworkDhcpServerConfig, agent_owned: bool) -> (r:
    RenderedSection)
    ensures
        r@ == dhcp_section_of(id@, server@, agent_owned),
{
    let mut options: Vec<RenderedOption> = if agent_owned {
        ownership_options(ObjectOwnership::AgentOwned, id)
    } else {
        Vec::new()
    };
    push_text(&mut options, "interface", id);
    push_option(&mut options, "ignore", bool_value(!server.enabled));
    push_option(&mut options, "start", decimal_text(server.start as u64));
    push_option(&mut options, "limit", decimal_text(server.limit as u64));
    push_text(&mut options, "leasetime", server.lease_time.as_str());
    push_option(&mut options, "force", bool_value(server.force));
    push_text(&mut options, "dhcpv6", dhcp_mode_text(server.dhcpv6_mode));
    push_text(&mut options, "ra", dhcp_mode_text(server.ra_mode));
    push_text(&mut options, "ndp", dhcp_mode_text(server.ndp_mode));
    let ghost all = server@.dhcp_options;
    let mut values: Vec<String> = Vec::new();
    let mut i: usize = 0;
    while i < server.dhcp_options.len()
        invariant
            i <= server.dhcp_options@.len(),
            all == views(server.dhcp_options@),
            values@.len() == i,
            forall|j: int|
                0 <= j < i ==> #[trigger] views(values@)[j] == decimal(all[j].code as nat) + ","@
                    + all[j].value,
        decreases server.dhcp_options@.len() - i,
    {
        assert(all[i as int] == server.dhcp_options@[i as int]@);
        let mut text = decimal_text(server.dhcp_options[i].code as u64);
        text.append(",");
        text.append(server.dhcp_options[i].value.as_str());
        values.push(text);
        i = i + 1;
    }
    assert(views(values@) =~= dhcp_section_of(id@, server@, agent_owned).lists[0].1);
    let mut lists: Vec<RenderedList> = Vec::new();
    push_list(&mut lists, "dhcp_option", values);
    assert(views(lists@) =~= dhcp_section_of(id@, server@, agent_owned).lists);
    RenderedSection { section_type: "dhcp", options, lists }
}

fn render_dhcp_options(
    draft: &mut StageDraft,
    section: &str,
    id: &str,
    server: &NetworkDhcpServerConfig,
    agent_owned: bool,
) -> (r: Result<(), NetworkRenderError>)
    ensures
        draft_result(r, final(draft)@) == dhcp_filled(
            old(draft)@,
            section@,
            id@,
            server@,
            agent_owned,
        ),
{
    let rendered = render_dhcp_section(id, server, agent_owned);
    if append_section(&mut draft.dhcp_batch, "dhcp", section, &rendered) {
        Ok(())
    } else {
        Err(NetworkRenderError::UnsafeValue)
    }
}

fn open_dhcp_section(draft: &mut StageDraft, id: &str) -> (r: Result<(), NetworkRenderError>)
    ensures
        draft_result(r, final(draft)@) == dhcp_opened(old(draft)@, id@),
{
    if !safe_uci_identifier(id) {
        return Err(NetworkRenderError::UnsupportedField("OpenWrt DHCP interface identifier"));
    }
    if holds(&draft.dhcp_reserved, id) {
        return Err(NetworkRenderError::DuplicateSection);
    }
    draft.dhcp_reserved.push(id.to_owned());
    append_create(&mut draft.dhcp_batch, "dhcp", id, "dhcp");
    Ok(())
}

fn render_dhcp_create(draft: &mut StageDraft, object: &NetworkObject) -> (r: Result<
    (),
    NetworkRenderError,
>)
    ensures
        draft_result(r, final(draft)@) == dhcp_created(old(draft)@, object@),
{
    match object {
        NetworkObject::Interface(value) => match &value.dhcp_server {
            None => Ok(()),
            Some(server) => match open_dhcp_section(draft, value.id.as_str()) {
                Err(e) => Err(e),
                Ok(()) => render_dhcp_options(
                    draft,
                    value.id.as_str(),
                    value.id.as_str(),
                    server,
                    true,
                ),
            },
        },
        _ => Ok(()),
    }
}

fn remove_dhcp_section(draft: &mut StageDraft, binding: &OpenWrtNetworkObjectBinding) -> (r: Result<
    (),
    NetworkRenderError,
>)
    ensures
        draft_result(r, final(draft)@) == dhcp_removed(old(draft)@, binding@),
{
    match &binding.dhcp_section {
        None => Ok(()),
        Some(section) => {
            if !binding.dhcp_agent_owned {
                return Err(
                    NetworkRenderError::UnsupportedField("native OpenWrt DHCP server removal"),
                );
            }
            append_delete(&mut draft.dhcp_batch, "dhcp", section.as_str());
            Ok(())
        },
    }
}

fn render_dhcp_update(
    draft: &mut StageDraft,
    binding: &OpenWrtNetworkObjectBinding,
    object: &NetworkObject,
) -> (r: Result<(), NetworkRenderError>)
    ensures
        draft_result(r, final(draft)@) == dhcp_updated(old(draft)@, binding@, object@),
{
    match object {
        NetworkObject::Interface(value) => match &value.dhcp_server {
            None => remove_dhcp_section(draft, binding),
            Some(server) => {
                let agent_owned = value.ownership == ObjectOwnership::AgentOwned;
                match &binding.dhcp_section {
                    Some(section) => {
                        let names = [
                            "mbed_managed",
                            "mbed_id",
                            "interface",
                            "ignore",
                            "start",
                            "limit",
                            "leasetime",
                            "force",
                            "dhcpv6",
                            "ra",
                            "ndp",
                            "dhcp_option",
                        ];
                        assert(views(names@) =~= supported_dhcp_names());
                        append_cleared(
                            &mut draft.dhcp_batch,
                            "dhcp",
                            section.as_str(),
                            &binding.dhcp_present_options,
                            &names,
                        );
                        render_dhcp_options(
                            draft,
                            section.as_str(),
                            value.id.as_str(),
                            server,
                            agent_owned,
                        )
                    },
                    None => match open_dhcp_section(draft, value.id.as_str()) {
                        Err(e) => Err(e),
                        Ok(()) => render_dhcp_options(
                            draft,
                            value.id.as_str(),
                            value.id.as_str(),
                            server,
                            agent_owned,
                        ),
                    },
                }
            },
        },
        _ => Ok(()),
    }
}

fn render_dhcp_delete(
    draft: &mut StageDraft,
    binding: &OpenWrtNetworkObjectBinding,
    object: &NetworkObject,
) -> (r: Result<(), NetworkRenderError>)
    ensures
        draft_result(r, final(draft)@) == dhcp_deleted(old(draft)@, binding@, object@),
{
    match object {
        NetworkObject::Interface(_) => remove_dhcp_section(draft, binding),
        _ => Ok(()),
    }
}

fn binding_for<'a>(
    bindings: &'a Vec<OpenWrtNetworkObjectBinding>,
    kind: &str,
    id: &str,
) -> (r: Option<&'a OpenWrtNetworkObjectBinding>)
    ensures
        match r {
            Some(b) => binding_from(views(bindings@), kind@, id@, 0) == Some(b@),
            None => binding_from(views(bindings@), kind@, id@, 0) is None,
        },
{
    let mut i: usize = 0;
    while i < bindings.len()
        invariant
            i <= bindings@.len(),
            binding_from(views(bindings@), kind@, id@, i as int) == binding_from(
                views(bindings@),
                kind@,
                id@,
                0,
            ),
        decreases bindings@.len() - i,
    {
        if same(bindings[i].kind.as_str(), kind) && same(bindings[i].id.as_str(), id) {
            return Some(&bindings[i]);
        }
        i = i + 1;
    }
    None
}

fn draft_change(
    draft: &mut StageDraft,
    change: &NetworkPlannedChange,
    bindings: &Vec<OpenWrtNetworkObjectBinding>,
) -> (r: Result<(), NetworkRenderError>)
    ensures
        draft_result(r, final(draft)@) == change_drafted(old(draft)@, change@, views(bindings@)),
{
    let (object, valid) = match (&change.after, &change.before) {
        (Some(o), _) => (o, change.after_checks.valid),
        (None, Some(o)) => (o, change.before_checks.valid),
        (None, None) => {
            return Err(NetworkRenderError::PlanMismatch);
        },
    };
    match change.diff.operation {
        ChangeOperation::Create => {
            let digest = match &change.diff.after_digest {
                Some(d) => d,
                None => {
                    return Err(NetworkRenderError::PlanMismatch);
                },
            };
            let section = match new_section_name(object, digest.as_str()) {
                Ok(s) => s,
                Err(e) => {
                    return Err(e);
                },
            };
            if holds(&draft.reserved, section.as_str()) {
                return Err(NetworkRenderError::DuplicateSection);
            }
            match render_create(&mut draft.batch, section.as_str(), object, valid) {
                Ok(()) => {},
                Err(e) => {
                    return Err(e);
                },
            }
            draft.reserved.push(section);
            render_dhcp_create(draft, object)
        },
        ChangeOperation::Delete => match binding_for(bindings, object.kind(), object.id()) {
            None => Err(NetworkRenderError::MissingBinding),
            Some(binding) => {
                append_delete(&mut draft.batch, "network", binding.section.as_str());
                render_dhcp_delete(draft, binding, object)
            },
        },
        _ => match binding_for(bindings, object.kind(), object.id()) {
            None => Err(NetworkRenderError::MissingBinding),
            Some(binding) => {
                match render_update(&mut draft.batch, binding, object, valid) {
                    Ok(()) => {},
                    Err(e) => {
                        return Err(e);
                    },
                }
                render_dhcp_update(draft, binding, object)
            },
        },
    }
}

fn known_kind(kind: &str) -> (r: bool)
    ensures
        r == is_kind(kind@),
{
    same(kind, "interface") || same(kind, "bridge") || same(kind, "vlan") || same(kind, "route")
        || same(kind, "policy_rule")
}

fn valid_section_type(section_type: &str, kind: &str) -> (r: bool)
    ensures
        r == is_type_of(section_type@, kind@),
{
    (same(kind, "interface") && same(section_type, "interface")) || ((same(kind, "bridge") || same(
        kind,
        "vlan",
    )) && same(section_type, "device")) || (same(kind, "route") && (same(section_type, "route")
        || same(section_type, "route6"))) || (same(kind, "policy_rule") && (same(
        section_type,
        "rule",
    ) || same(section_type, "rule6")))
}

/// Whether an identity is safe in a binding.
pub fn safe_id(value: &str) -> (r: bool)
    ensures
        r == is_safe_id(value@),
{
    let cs = chars_of(value);
    if cs.len() == 0 || byte_length(value) > 64 {
        return false;
    }
    let mut i: usize = 0;
    while i < cs.len()
        invariant
            i <= cs@.len(),
            cs@ == value@,
            0 < cs@.len(),
            byte_len(value@) <= 64,
            forall|j: int|
                0 <= j < i ==> is_alnum(#[trigger] cs@[j]) || cs@[j] == '-' || cs@[j] == '_'
                    || cs@[j] == '.' || cs@[j] == ':' || cs@[j] == '@',
        decreases cs@.len() - i,
    {
        let c = cs[i];
        if !(alnum(c) || c == '-' || c == '_' || c == '.' || c == ':' || c == '@') {
            return false;
        }
        i = i + 1;
    }
    true
}

/// Whether each text is an identifier.
pub fn identifiers(v: &Vec<String>) -> (r: bool)
    ensures
        r == all_identifiers(views(v@)),
{
    let mut i: usize = 0;
    while i < v.len()
        invariant
            i <= v@.len(),
            forall|j: int| 0 <= j < i ==> is_identifier(#[trigger] views(v@)[j]),
        decreases v@.len() - i,
    {
        if !safe_uci_identifier(v[i].as_str()) {
            assert(!is_identifier(views(v@)[i as int]));
            return false;
        }
        i = i + 1;
    }
    true
}

fn safe_binding(b: &OpenWrtNetworkObjectBinding) -> (r: bool)
    ensures
        r == binding_safe(b@),
{
    known_kind(b.kind.as_str()) && safe_id(b.id.as_str()) && valid_section_type(
        b.section_type.as_str(),
        b.kind.as_str(),
    ) && valid_section(b.section.as_str(), b.section_type.as_str()) && b.present_options.len()
        <= MAX_PRESENT_OPTIONS && identifiers(&b.present_options)
}

/// A result without a value, its error by its view.
pub open spec fn ures(r: Result<(), NetworkRenderError>) -> Result<(), NetworkRenderErrorView> {
    match r {
        Ok(()) => Ok(()),
        Err(e) => Err(e@),
    }
}

fn validate_bindings(bindings: &Vec<OpenWrtNetworkObjectBinding>) -> (r: Result<
    (),
    NetworkRenderError,
>)
    ensures
        ures(r) == (if bindings@.len() > MAX_BINDINGS {
            Err(NetworkRenderErrorView::Capacity)
        } else {
            bindings_valid(views(bindings@), 0)
        }),
{
    if bindings.len() > MAX_BINDINGS {
        return Err(NetworkRenderError::Capacity);
    }
    let ghost all = views(bindings@);
    let mut i: usize = 0;
    while i < bindings.len()
        invariant
            i <= bindings@.len(),
            bindings@.len() <= MAX_BINDINGS,
            all == views(bindings@),
            bindings_valid(all, i as int) == bindings_valid(all, 0),
        decreases bindings@.len() - i,
    {
        assert(all[i as int] == bindings@[i as int]@);
        if !safe_binding(&bindings[i]) {
            return Err(NetworkRenderError::UnsafeBinding);
        }
        let mut j: usize = 0;
        while j < i
            invariant
                j <= i < bindings@.len(),
                bindings@.len() <= MAX_BINDINGS,
                all == views(bindings@),
                bindings_valid(all, i as int) == bindings_valid(all, 0),
                binding_safe(all[i as int]),
                forall|k: int|
                    0 <= k < j ==> !((#[trigger] all[k]).kind == all[i as int].kind && all[k].id
                        == all[i as int].id),
            decreases i - j,
        {
            assert(all[j as int] == bindings@[j as int]@);
            assert(all[i as int] == bindings@[i as int]@);
            if same(bindings[j].kind.as_str(), bindings[i].kind.as_str()) && same(
                bindings[j].id.as_str(),
                bindings[i].id.as_str(),
            ) {
                return Err(NetworkRenderError::DuplicateBinding);
            }
            j = j + 1;
        }
        j = 0;
        while j < i
            invariant
                j <= i < bindings@.len(),
                bindings@.len() <= MAX_BINDINGS,
                all == views(bindings@),
                bindings_valid(all, i as int) == bindings_valid(all, 0),
                binding_safe(all[i as int]),
                forall|k: int|
                    0 <= k < i ==> !((#[trigger] all[k]).kind == all[i as int].kind && all[k].id
                        == all[i as int].id),
                forall|k: int| 0 <= k < j ==> (#[trigger] all[k]).section != all[i as int].section,
            decreases i - j,
        {
            assert(all[j as int] == bindings@[j as int]@);
            assert(all[i as int] == bindings@[i as int]@);
            if same(bindings[j].section.as_str(), bindings[i].section.as_str()) {
                return Err(NetworkRenderError::DuplicateSection);
            }
            j = j + 1;
        }
        i = i + 1;
    }
    Ok(())
}

fn bound_sections_reserved(
    bindings: &Vec<OpenWrtNetworkObjectBinding>,
    reserved: &Vec<String>,
) -> (r: bool)
    ensures
        r == sections_reserved(views(bindings@), views(reserved@)),
{
    let ghost all = views(bindings@);
    let mut i: usize = 0;
    while i < bindings.len()
        invariant
            i <= bindings@.len(),
            all == views(bindings@),
            forall|k: int|
                0 <= k < i ==> views(reserved@).contains((#[trigger] all[k]).section),
        decreases bindings@.len() - i,
    {
        assert(all[i as int] == bindings@[i as int]@);
        if !holds(reserved, bindings[i].section.as_str()) {
            return false;
        }
        i = i + 1;
    }
    true
}

fn distinct_identities(objects: &Vec<NetworkObject>) -> (r: bool)
    ensures
        r == identities_distinct(views(objects@)),
{
    let ghost all = views(objects@);
    let mut i: usize = 0;
    while i < objects.len()
        invariant
            i <= objects@.len(),
            all == views(objects@),
            forall|a: int, b: int|
                0 <= a < b < i ==> !((#[trigger] all[a]).kind() == (#[trigger] all[b]).kind()
                    && all[a].id() == all[b].id()),
        decreases objects@.len() - i,
    {
        assert(all[i as int] == objects@[i as int]@);
        let mut j: usize = 0;
        while j < i
            invariant
                j <= i < objects@.len(),
                all == views(objects@),
                forall|a: int|
                    0 <= a < j ==> !((#[trigger] all[a]).kind() == all[i as int].kind()
                        && all[a].id() == all[i as int].id()),
            decreases i - j,
        {
            assert(all[j as int] == objects@[j as int]@);
            assert(all[i as int] == objects@[i as int]@);
            if same(objects[j].kind(), objects[i].kind()) && same(objects[j].id(), objects[i].id()) {
                return false;
            }
            j = j + 1;
        }
        i = i + 1;
    }
    true
}

fn subject_of(change: &NetworkPlannedChange) -> (r: Option<&NetworkObject>)
    ensures
        match r {
            Some(o) => subject(change@) == Some(o@),
            None => subject(change@) is None,
        },
{
    match (&change.after, &change.before) {
        (Some(o), _) => Some(o),
        (None, Some(o)) => Some(o),
        (None, None) => None,
    }
}

fn subject_touched(changes: &Vec<NetworkPlannedChange>, i: usize) -> (r: bool)
    requires
        i < changes@.len(),
    ensures
        r == touched_before(views(changes@), i as int),
{
    let ghost all = views(changes@);
    let mut j: usize = 0;
    while j < i
        invariant
            j <= i < changes@.len(),
            all == views(changes@),
            forall|k: int| 0 <= k < j ==> !same_subject(#[trigger] all[k], all[i as int]),
        decreases i - j,
    {
        assert(all[j as int] == changes@[j as int]@);
        assert(all[i as int] == changes@[i as int]@);
        match (subject_of(&changes[j]), subject_of(&changes[i])) {
            (Some(a), Some(b)) => {
                if same(a.kind(), b.kind()) && same(a.id(), b.id()) {
                    assert(same_subject(all[j as int], all[i as int]));
                    return true;
                }
            },
            _ => {},
        }
        j = j + 1;
    }
    false
}

fn stored_matches(before: &Option<NetworkObject>, objects: &Vec<NetworkObject>, kind: &str, id: &str) -> (r:
    bool)
    ensures
        r == (opt(*before) == stored(views(objects@), kind@, id@)),
{
    let at: usize = find_object(objects, kind, id);
    if at < objects.len() {
        assert(views(objects@)[at as int] == objects@[at as int]@);
        match before {
            Some(o) => o.alike(&objects[at]),
            None => false,
        }
    } else {
        before.is_none()
    }
}

fn digest_matches(claimed: &Option<String>, present: bool, checks: &ObjectChecks) -> (r: bool)
    ensures
        r == (opt(*claimed) == (if present {
            checks@.digest
        } else {
            None
        })),
{
    if present {
        same_opt(claimed, &checks.digest)
    } else {
        claimed.is_none()
    }
}

fn validate_change(
    changes: &Vec<NetworkPlannedChange>,
    objects: &Vec<NetworkObject>,
    i: usize,
) -> (r: Result<(), NetworkRenderError>)
    requires
        i < changes@.len(),
    ensures
        ures(r) == change_matches(views(changes@), views(objects@), i as int),
{
    let change = &changes[i];
    assert(views(changes@)[i as int] == change@);
    let object = match subject_of(change) {
        Some(o) => o,
        None => {
            return Err(NetworkRenderError::PlanMismatch);
        },
    };
    if subject_touched(changes, i) || !same(change.diff.object.kind.as_str(), object.kind())
        || !same(change.diff.object.id.as_str(), object.id()) || change.diff.object.ownership
        != object.ownership() {
        return Err(NetworkRenderError::PlanMismatch);
    }
    if (change.before.is_some() && change.before_checks.digest.is_none()) || (change.after.is_some()
        && change.after_checks.digest.is_none()) {
        return Err(NetworkRenderError::InvalidObject);
    }
    if !digest_matches(&change.diff.before_digest, change.before.is_some(), &change.before_checks)
        || !digest_matches(&change.diff.after_digest, change.after.is_some(), &change.after_checks)
        || !same_opt(&change.diff.object.expected_version, &change.diff.before_digest) {
        return Err(NetworkRenderError::PlanMismatch);
    }
    let held = stored_matches(&change.before, objects, object.kind(), object.id());
    let fits = match change.diff.operation {
        ChangeOperation::Create => change.before.is_none() && change.after.is_some() && held,
        ChangeOperation::Update => held && change.after.is_some(),
        ChangeOperation::Move => held && change.after.is_some(),
        ChangeOperation::Delete => held && change.after.is_none(),
    };
    if fits {
        Ok(())
    } else {
        Err(NetworkRenderError::PlanMismatch)
    }
}

fn validate_plan_against_snapshot(
    changes: &Vec<NetworkPlannedChange>,
    objects: &Vec<NetworkObject>,
) -> (r: Result<(), NetworkRenderError>)
    ensures
        ures(r) == plan_matches(views(changes@), views(objects@)),
{
    if changes.len() == 0 || changes.len() > MAX_CHANGES {
        return Err(NetworkRenderError::PlanMismatch);
    }
    if !distinct_identities(objects) {
        return Err(NetworkRenderError::DuplicateInventoryObject);
    }
    let mut i: usize = 0;
    while i < changes.len()
        invariant
            i <= changes@.len(),
            0 < changes@.len() <= MAX_CHANGES,
            identities_distinct(views(objects@)),
            changes_match(views(changes@), views(objects@), i as int) == changes_match(
                views(changes@),
                views(objects@),
                0,
            ),
        decreases changes@.len() - i,
    {
        match validate_change(changes, objects, i) {
            Ok(()) => {},
            Err(e) => {
                return Err(e);
            },
        }
        i = i + 1;
    }
    Ok(())
}

fn over_batch(draft: &StageDraft) -> (r: bool)
    ensures
        r == (byte_len(draft@.batch) + byte_len(draft@.dhcp_batch) > MAX_BATCH_BYTES),
{
    let a: usize = byte_length(draft.batch.as_str());
    let b: usize = byte_length(draft.dhcp_batch.as_str());
    a > MAX_BATCH_BYTES || b > MAX_BATCH_BYTES || a + b > MAX_BATCH_BYTES
}

/// Renders an approved plan against the snapshot it was made for.
///
/// The batches are input for `uci -c <private directory> batch` only.
pub fn render_openwrt_network_stage_from_snapshot(
    plan: &NetworkMutationPlan,
    snapshot: &OpenWrtNetworkInventorySnapshot,
) -> (r: Result<OpenWrtNetworkStage, NetworkRenderError>)
    ensures
        vres(r) == network_stage(plan@.changes, snapshot@),
{
    let bindings = snapshot.binding_list();
    let occupied = snapshot.occupied_list();
    match validate_plan_against_snapshot(&plan.changes, &snapshot.inventory().objects) {
        Ok(()) => {},
        Err(e) => {
            return Err(e);
        },
    }
    match validate_bindings(bindings) {
        Ok(()) => {},
        Err(e) => {
            return Err(e);
        },
    }
    if !all_distinct(occupied) {
        return Err(NetworkRenderError::DuplicateSection);
    }
    if !bound_sections_reserved(bindings, occupied) {
        return Err(NetworkRenderError::UnsafeBinding);
    }
    let mut draft = StageDraft {
        batch: String::new(),
        dhcp_batch: String::new(),
        reserved: copy_list(occupied),
        dhcp_reserved: copy_list(snapshot.dhcp_occupied_list()),
    };
    let ghost start = draft@;
    let mut i: usize = 0;
    while i < plan.changes.len()
        invariant
            i <= plan.changes@.len(),
            drafted(draft@, views(plan.changes@), views(bindings@), i as int) == drafted(
                start,
                views(plan.changes@),
                views(bindings@),
                0,
            ),
            network_stage(plan@.changes, snapshot@) == (match drafted(
                start,
                views(plan.changes@),
                views(bindings@),
                0,
            ) {
                Err(e) => Err(e),
                Ok(d) => Ok(
                    OpenWrtNetworkStageView {
                        uci_batch: d.batch + "commit network\n"@,
                        dhcp_uci_batch: if d.dhcp_batch.len() > 0 {
                            d.dhcp_batch + "commit dhcp\n"@
                        } else {
                            d.dhcp_batch
                        },
                        validations: seq![OpenWrtNetworkValidation::UciExport],
                        activation_service: "/etc/init.d/network"@,
                        activation_action: "reload"@,
                    },
                ),
            }),
        decreases plan.changes@.len() - i,
    {
        assert(views(plan.changes@)[i as int] == plan.changes@[i as int]@);
        match draft_change(&mut draft, &plan.changes[i], bindings) {
            Ok(()) => {},
            Err(e) => {
                return Err(e);
            },
        }
        if over_batch(&draft) {
            return Err(NetworkRenderError::Capacity);
        }
        i = i + 1;
    }
    let StageDraft { batch, dhcp_batch, reserved: _, dhcp_reserved: _ } = draft;
    let mut uci_batch = batch;
    let mut dhcp_uci_batch = dhcp_batch;
    uci_batch.append("commit network\n");
    if !dhcp_uci_batch.as_str().is_empty() {
        dhcp_uci_batch.append("commit dhcp\n");
    }
    let mut validations: Vec<OpenWrtNetworkValidation> = Vec::new();
    validations.push(OpenWrtNetworkValidation::UciExport);
    assert(validations@ =~= seq![OpenWrtNetworkValidation::UciExport]);
    Ok(
        OpenWrtNetworkStage {
            uci_batch,
            dhcp_uci_batch,
            validations,
            activation_service: "/etc/init.d/network",
            activation_action: "reload",
        },
    )
}

} // verus!
