//! Bounded inventory of typed network objects from UCI snapshots.

use vstd::prelude::*;

use vstd::string::*;

use crate::change::ObjectOwnership;
use crate::firewall_error::FirewallRenderError;
use crate::firewall_error::FirewallRenderErrorView;
use crate::firewall_uci::{package_sections, parse_uci_show_package, UciSection, UciSectionView};
use crate::items::{copy_list, copy_opt, same_list, same_opt, Item};
use crate::network_decode::{
    decode_dhcp_server, decode_section, dhcp_server_value, network_object_value,
};
use crate::network_model::{
    NetworkDhcpServerConfigView, NetworkInterfaceConfigView, NetworkInventory, NetworkInventoryView, NetworkObject,
    NetworkObjectView, NetworkFamily,
};
use crate::order::{sort_texts, sorted_texts};
use crate::platform::{NetworkDeviceModel, PlatformCapabilities, PlatformCapabilitiesView, PlatformKind};
use crate::text::{has_prefix, holds, same, starts};
use crate::views::{group_views, lvres, opt, views, vres};

verus! {

broadcast use group_views;

/// Why a network inspection or stage was refused.
#[derive(Debug, Clone, PartialEq, Eq)]
pub enum NetworkRenderError {
    BackendUnavailable,
    Capacity,
    MalformedUci,
    UnsupportedManagedSection(String),
    UnsafeOwnershipMarker(String),
    DuplicateInventoryObject,
    AmbiguousInventory,
    InvalidObject,
    PlanMismatch,
    MissingBinding,
    UnsafeBinding,
    DuplicateBinding,
    DuplicateSection,
    UnsupportedField(&'static str),
    UnsafeValue,
    Output,
}

#[verifier::ext_equal]
pub enum NetworkRenderErrorView {
    BackendUnavailable,
    Capacity,
    MalformedUci,
    UnsupportedManagedSection(Seq<char>),
    UnsafeOwnershipMarker(Seq<char>),
    DuplicateInventoryObject,
    AmbiguousInventory,
    InvalidObject,
    PlanMismatch,
    MissingBinding,
    UnsafeBinding,
    DuplicateBinding,
    DuplicateSection,
    UnsupportedField(Seq<char>),
    UnsafeValue,
    Output,
}

impl View for NetworkRenderError {
    type V = NetworkRenderErrorView;

    open spec fn view(&self) -> NetworkRenderErrorView {
        match self {
            NetworkRenderError::BackendUnavailable => NetworkRenderErrorView::BackendUnavailable,
            NetworkRenderError::Capacity => NetworkRenderErrorView::Capacity,
            NetworkRenderError::MalformedUci => NetworkRenderErrorView::MalformedUci,
            NetworkRenderError::UnsupportedManagedSection(x) =>
                NetworkRenderErrorView::UnsupportedManagedSection(x@),
            NetworkRenderError::UnsafeOwnershipMarker(x) =>
                NetworkRenderErrorView::UnsafeOwnershipMarker(x@),
            NetworkRenderError::DuplicateInventoryObject =>
                NetworkRenderErrorView::DuplicateInventoryObject,
            NetworkRenderError::AmbiguousInventory => NetworkRenderErrorView::AmbiguousInventory,
            NetworkRenderError::InvalidObject => NetworkRenderErrorView::InvalidObject,
            NetworkRenderError::PlanMismatch => NetworkRenderErrorView::PlanMismatch,
            NetworkRenderError::MissingBinding => NetworkRenderErrorView::MissingBinding,
            NetworkRenderError::UnsafeBinding => NetworkRenderErrorView::UnsafeBinding,
            NetworkRenderError::DuplicateBinding => NetworkRenderErrorView::DuplicateBinding,
            NetworkRenderError::DuplicateSection => NetworkRenderErrorView::DuplicateSection,
            NetworkRenderError::UnsupportedField(x) => NetworkRenderErrorView::UnsupportedField(x@),
            NetworkRenderError::UnsafeValue => NetworkRenderErrorView::UnsafeValue,
            NetworkRenderError::Output => NetworkRenderErrorView::Output,
        }
    }
}

impl NetworkRenderErrorView {
    /// The text of the error.
    pub open spec fn message_text(self) -> Seq<char> {
        match self {
            NetworkRenderErrorView::BackendUnavailable =>
                "OpenWrt network staging backend is unavailable"@,
            NetworkRenderErrorView::Capacity => "OpenWrt network staging input exceeds its capacity"@,
            NetworkRenderErrorView::MalformedUci => "UCI network inventory output is malformed"@,
            NetworkRenderErrorView::UnsupportedManagedSection(x) =>
                "an Agent-owned network section cannot be represented safely: "@ + x,
            NetworkRenderErrorView::UnsafeOwnershipMarker(x) =>
                "a network section has an unsafe ownership marker: "@ + x,
            NetworkRenderErrorView::DuplicateInventoryObject =>
                "typed network inventory contains a duplicate object identity"@,
            NetworkRenderErrorView::AmbiguousInventory => "typed network inventory is ambiguous"@,
            NetworkRenderErrorView::InvalidObject =>
                "network mutation plan contains an invalid object"@,
            NetworkRenderErrorView::PlanMismatch => "network mutation plan does not match fresh inventory"@,
            NetworkRenderErrorView::MissingBinding =>
                "an existing network object has no fresh UCI binding"@,
            NetworkRenderErrorView::UnsafeBinding => "a UCI network binding is unsafe"@,
            NetworkRenderErrorView::DuplicateBinding => "duplicate UCI network binding"@,
            NetworkRenderErrorView::DuplicateSection =>
                "multiple network objects resolve to the same UCI section"@,
            NetworkRenderErrorView::UnsupportedField(x) =>
                "OpenWrt UCI cannot safely represent network field: "@ + x,
            NetworkRenderErrorView::UnsafeValue => "unsafe value cannot be represented in a UCI batch"@,
            NetworkRenderErrorView::Output => "failed to render the network staging artifact"@,
        }
    }
}

impl NetworkRenderError {
    /// The text of the error.
    pub fn message(&self) -> (r: String)
        ensures
            r@ == self@.message_text(),
    {
        match self {
            NetworkRenderError::BackendUnavailable =>
                "OpenWrt network staging backend is unavailable".to_owned(),
            NetworkRenderError::Capacity =>
                "OpenWrt network staging input exceeds its capacity".to_owned(),
            NetworkRenderError::MalformedUci => "UCI network inventory output is malformed".to_owned(),
            NetworkRenderError::UnsupportedManagedSection(x) => {
                let mut r = "an Agent-owned network section cannot be represented safely: ".to_owned();
                r.append(x.as_str());
                r
            },
            NetworkRenderError::UnsafeOwnershipMarker(x) => {
                let mut r = "a network section has an unsafe ownership marker: ".to_owned();
                r.append(x.as_str());
                r
            },
            NetworkRenderError::DuplicateInventoryObject =>
                "typed network inventory contains a duplicate object identity".to_owned(),
            NetworkRenderError::AmbiguousInventory => "typed network inventory is ambiguous".to_owned(),
            NetworkRenderError::InvalidObject =>
                "network mutation plan contains an invalid object".to_owned(),
            NetworkRenderError::PlanMismatch => "network mutation plan does not match fresh inventory".to_owned(),
            NetworkRenderError::MissingBinding =>
                "an existing network object has no fresh UCI binding".to_owned(),
            NetworkRenderError::UnsafeBinding => "a UCI network binding is unsafe".to_owned(),
            NetworkRenderError::DuplicateBinding => "duplicate UCI network binding".to_owned(),
            NetworkRenderError::DuplicateSection =>
                "multiple network objects resolve to the same UCI section".to_owned(),
            NetworkRenderError::UnsupportedField(x) => {
                let mut r = "OpenWrt UCI cannot safely represent network field: ".to_owned();
                r.append(x);
                r
            },
            NetworkRenderError::UnsafeValue =>
                "unsafe value cannot be represented in a UCI batch".to_owned(),
            NetworkRenderError::Output => "failed to render the network staging artifact".to_owned(),
        }
    }
}

/// Which section an object was found in, and which options that section sets.
#[derive(Debug, Clone, PartialEq, Eq)]
pub struct OpenWrtNetworkObjectBinding {
    pub kind: String,
    pub id: String,
    pub section_type: String,
    pub section: String,
    pub present_options: Vec<String>,
    pub dhcp_section: Option<String>,
    pub dhcp_present_options: Vec<String>,
    pub dhcp_agent_owned: bool,
}

#[verifier::ext_equal]
pub struct OpenWrtNetworkObjectBindingView {
    pub kind: Seq<char>,
    pub id: Seq<char>,
    pub section_type: Seq<char>,
    pub section: Seq<char>,
    pub present_options: Seq<Seq<char>>,
    pub dhcp_section: Option<Seq<char>>,
    pub dhcp_present_options: Seq<Seq<char>>,
    pub dhcp_agent_owned: bool,
}

impl View for OpenWrtNetworkObjectBinding {
    type V = OpenWrtNetworkObjectBindingView;

    open spec fn view(&self) -> OpenWrtNetworkObjectBindingView {
        OpenWrtNetworkObjectBindingView {
            kind: self.kind@,
            id: self.id@,
            section_type: self.section_type@,
            section: self.section@,
            present_options: views(self.present_options@),
            dhcp_section: opt(self.dhcp_section),
            dhcp_present_options: views(self.dhcp_present_options@),
            dhcp_agent_owned: self.dhcp_agent_owned,
        }
    }
}

impl Item for OpenWrtNetworkObjectBinding {
    fn alike(&self, other: &Self) -> (r: bool) {
        same(self.kind.as_str(), other.kind.as_str())
            && same(self.id.as_str(), other.id.as_str())
            && same(self.section_type.as_str(), other.section_type.as_str())
            && same(self.section.as_str(), other.section.as_str())
            && same_list(&self.present_options, &other.present_options)
            && same_opt(&self.dhcp_section, &other.dhcp_section)
            && same_list(&self.dhcp_present_options, &other.dhcp_present_options)
            && self.dhcp_agent_owned == other.dhcp_agent_owned
    }

    fn twin(&self) -> (r: Self) {
        OpenWrtNetworkObjectBinding {
            kind: self.kind.clone(),
            id: self.id.clone(),
            section_type: self.section_type.clone(),
            section: self.section.clone(),
            present_options: copy_list(&self.present_options),
            dhcp_section: copy_opt(&self.dhcp_section),
            dhcp_present_options: copy_list(&self.dhcp_present_options),
            dhcp_agent_owned: self.dhcp_agent_owned,
        }
    }
}

/// One bounded, consistent view of the network and DHCP packages.
#[derive(Debug, Clone, PartialEq, Eq)]
pub struct OpenWrtNetworkInventorySnapshot {
    inventory: NetworkInventory,
    bindings: Vec<OpenWrtNetworkObjectBinding>,
    occupied_sections: Vec<String>,
    read_only_sections: Vec<String>,
    dhcp_occupied_sections: Vec<String>,
    dhcp_read_only_sections: Vec<String>,
}

#[verifier::ext_equal]
pub struct OpenWrtNetworkInventorySnapshotView {
    pub inventory: NetworkInventoryView,
    pub bindings: Seq<OpenWrtNetworkObjectBindingView>,
    pub occupied_sections: Seq<Seq<char>>,
    pub read_only_sections: Seq<Seq<char>>,
    pub dhcp_occupied_sections: Seq<Seq<char>>,
    pub dhcp_read_only_sections: Seq<Seq<char>>,
}

impl View for OpenWrtNetworkInventorySnapshot {
    type V = OpenWrtNetworkInventorySnapshotView;

    closed spec fn view(&self) -> OpenWrtNetworkInventorySnapshotView {
        OpenWrtNetworkInventorySnapshotView {
            inventory: self.inventory@,
            bindings: views(self.bindings@),
            occupied_sections: views(self.occupied_sections@),
            read_only_sections: views(self.read_only_sections@),
            dhcp_occupied_sections: views(self.dhcp_occupied_sections@),
            dhcp_read_only_sections: views(self.dhcp_read_only_sections@),
        }
    }
}

impl Item for OpenWrtNetworkInventorySnapshot {
    fn alike(&self, other: &Self) -> (r: bool) {
        self.inventory.alike(&other.inventory)
            && same_list(&self.bindings, &other.bindings)
            && same_list(&self.occupied_sections, &other.occupied_sections)
            && same_list(&self.read_only_sections, &other.read_only_sections)
            && same_list(&self.dhcp_occupied_sections, &other.dhcp_occupied_sections)
            && same_list(&self.dhcp_read_only_sections, &other.dhcp_read_only_sections)
    }

    fn twin(&self) -> (r: Self) {
        OpenWrtNetworkInventorySnapshot {
            inventory: self.inventory.twin(),
            bindings: copy_list(&self.bindings),
            occupied_sections: copy_list(&self.occupied_sections),
            read_only_sections: copy_list(&self.read_only_sections),
            dhcp_occupied_sections: copy_list(&self.dhcp_occupied_sections),
            dhcp_read_only_sections: copy_list(&self.dhcp_read_only_sections),
        }
    }
}

/// What the sections seen so far came to.
#[derive(Debug, Clone, PartialEq, Eq)]
pub struct NetworkScan {
    pub objects: Vec<NetworkObject>,
    pub bindings: Vec<OpenWrtNetworkObjectBinding>,
    pub occupied: Vec<String>,
    pub read_only: Vec<String>,
}

#[verifier::ext_equal]
pub struct NetworkScanView {
    pub objects: Seq<NetworkObjectView>,
    pub bindings: Seq<OpenWrtNetworkObjectBindingView>,
    pub occupied: Seq<Seq<char>>,
    pub read_only: Seq<Seq<char>>,
}

impl View for NetworkScan {
    type V = NetworkScanView;

    open spec fn view(&self) -> NetworkScanView {
        NetworkScanView {
            objects: views(self.objects@),
            bindings: views(self.bindings@),
            occupied: views(self.occupied@),
            read_only: views(self.read_only@),
        }
    }
}

impl Item for NetworkScan {
    fn alike(&self, other: &Self) -> (r: bool) {
        same_list(&self.objects, &other.objects)
            && same_list(&self.bindings, &other.bindings)
            && same_list(&self.occupied, &other.occupied)
            && same_list(&self.read_only, &other.read_only)
    }

    fn twin(&self) -> (r: Self) {
        NetworkScan {
            objects: copy_list(&self.objects),
            bindings: copy_list(&self.bindings),
            occupied: copy_list(&self.occupied),
            read_only: copy_list(&self.read_only),
        }
    }
}

pub const MAX_PRESENT_OPTIONS: usize = 64;

impl OpenWrtNetworkInventorySnapshot {
    pub fn inventory(&self) -> (r: &NetworkInventory)
        ensures
            r@ == self@.inventory,
    {
        &self.inventory
    }

    pub fn bindings(&self) -> (r: &[OpenWrtNetworkObjectBinding])
        ensures
            views(r@) == self@.bindings,
    {
        self.bindings.as_slice()
    }

    pub fn occupied_sections(&self) -> (r: &[String])
        ensures
            views(r@) == self@.occupied_sections,
    {
        self.occupied_sections.as_slice()
    }

    pub fn read_only_sections(&self) -> (r: &[String])
        ensures
            views(r@) == self@.read_only_sections,
    {
        self.read_only_sections.as_slice()
    }

    pub fn dhcp_occupied_sections(&self) -> (r: &[String])
        ensures
            views(r@) == self@.dhcp_occupied_sections,
    {
        self.dhcp_occupied_sections.as_slice()
    }

    pub fn dhcp_read_only_sections(&self) -> (r: &[String])
        ensures
            views(r@) == self@.dhcp_read_only_sections,
    {
        self.dhcp_read_only_sections.as_slice()
    }

    pub(crate) fn binding_list(&self) -> (r: &Vec<OpenWrtNetworkObjectBinding>)
        ensures
            views(r@) == self@.bindings,
    {
        &self.bindings
    }

    pub(crate) fn occupied_list(&self) -> (r: &Vec<String>)
        ensures
            views(r@) == self@.occupied_sections,
    {
        &self.occupied_sections
    }

    pub(crate) fn dhcp_occupied_list(&self) -> (r: &Vec<String>)
        ensures
            views(r@) == self@.dhcp_occupied_sections,
    {
        &self.dhcp_occupied_sections
    }
}

/// Whether a platform can stage configuration through UCI: a supported OpenWrt release with the
/// package and the command.
pub open spec fn can_stage(c: PlatformCapabilitiesView) -> bool {
    c.kind == PlatformKind::OpenWrt && c.release_supported && c.has_uci
        && c.available_commands.contains("uci"@)
}

pub fn staging_available(capabilities: &PlatformCapabilities) -> (r: bool)
    ensures
        r == can_stage(capabilities@),
{
    capabilities.kind == PlatformKind::OpenWrt && capabilities.release_supported
        && capabilities.has_uci && holds(&capabilities.available_commands, "uci")
}

/// Selects staging only for supported releases with UCI available.
pub fn select_openwrt_network_staging(capabilities: &PlatformCapabilities) -> (r: Result<
    NetworkDeviceModel,
    NetworkRenderError,
>)
    ensures
        r == (if can_stage(capabilities@) {
            Ok(capabilities@.device_model)
        } else {
            Err(NetworkRenderError::BackendUnavailable)
        }),
{
    if staging_available(capabilities) {
        Ok(capabilities.device_model)
    } else {
        Err(NetworkRenderError::BackendUnavailable)
    }
}

/// The error that a failed reading of a package becomes.
pub open spec fn reading_error(e: FirewallRenderErrorView) -> NetworkRenderErrorView {
    match e {
        FirewallRenderErrorView::Capacity => NetworkRenderErrorView::Capacity,
        _ => NetworkRenderErrorView::MalformedUci,
    }
}

/// The sections of a package, with the errors of this module.
pub open spec fn sections_of(text: Seq<char>, package: Seq<char>) -> Result<
    Seq<UciSectionView>,
    NetworkRenderErrorView,
> {
    match package_sections(text, package, true) {
        Ok(s) => Ok(s),
        Err(e) => Err(reading_error(e)),
    }
}

fn parse_sections(input: &str, package: &str) -> (r: Result<Vec<UciSection>, NetworkRenderError>)
    ensures
        lvres(r) == sections_of(input@, package@),
{
    match parse_uci_show_package(input, package) {
        Ok(s) => Ok(s),
        Err(FirewallRenderError::Capacity) => Err(NetworkRenderError::Capacity),
        Err(_) => Err(NetworkRenderError::MalformedUci),
    }
}

/// Whether the agent manages a section; nothing where the marker is unsafe. A reserved name needs
/// the marker, and a marker has one meaning.
pub open spec fn managed_value(s: UciSectionView) -> Option<bool> {
    match s.first("mbed_managed"@) {
        None => if starts(s.selector, "mbed_"@) {
            None
        } else {
            Some(false)
        },
        Some(v) => if v == "1"@ {
            Some(true)
        } else {
            None
        },
    }
}

pub fn managed(section: &UciSection) -> (r: Option<bool>)
    ensures
        r == managed_value(section@),
{
    match section.first("mbed_managed") {
        None => if has_prefix(section.selector.as_str(), "mbed_") {
            None
        } else {
            Some(false)
        },
        Some(v) => if same(v, "1") {
            Some(true)
        } else {
            None
        },
    }
}

pub open spec fn is_supported_type(t: Seq<char>) -> bool {
    t == "interface"@ || t == "device"@ || t == "route"@ || t == "route6"@ || t == "rule"@ || t
        == "rule6"@
}

fn supported_type(t: &str) -> (r: bool)
    ensures
        r == is_supported_type(t@),
{
    same(t, "interface") || same(t, "device") || same(t, "route") || same(t, "route6") || same(
        t,
        "rule",
    ) || same(t, "rule6")
}

pub open spec fn owner(managed: bool) -> ObjectOwnership {
    if managed {
        ObjectOwnership::AgentOwned
    } else {
        ObjectOwnership::PlatformNative
    }
}

/// The index of the first object of a kind and an identity from `i` on, or the number of objects.
pub open spec fn object_from(
    objects: Seq<NetworkObjectView>,
    kind: Seq<char>,
    id: Seq<char>,
    i: int,
) -> int
    decreases objects.len() - i,
{
    if i < 0 || i >= objects.len() {
        objects.len() as int
    } else if objects[i].kind() == kind && objects[i].id() == id {
        i
    } else {
        object_from(objects, kind, id, i + 1)
    }
}

/// The index of the first object of a kind and an identity.
pub fn find_object(objects: &Vec<NetworkObject>, kind: &str, id: &str) -> (r: usize)
    ensures
        r == object_from(views(objects@), kind@, id@, 0),
        r <= objects@.len(),
{
    let mut i: usize = 0;
    while i < objects.len()
        invariant
            i <= objects@.len(),
            object_from(views(objects@), kind@, id@, i as int) == object_from(
                views(objects@),
                kind@,
                id@,
                0,
            ),
        decreases objects@.len() - i,
    {
        if same(objects[i].kind(), kind) && same(objects[i].id(), id) {
            return i;
        }
        i = i + 1;
    }
    i
}

/// A section that cannot be represented: refused if the agent manages it, else left alone.
pub open spec fn left_alone(state: NetworkScanView, s: UciSectionView, managed: bool) -> Result<
    NetworkScanView,
    NetworkRenderErrorView,
> {
    if managed {
        Err(NetworkRenderErrorView::UnsupportedManagedSection(s.selector))
    } else {
        Ok(NetworkScanView { read_only: state.read_only.push(s.selector), ..state })
    }
}

pub open spec fn binding_of(s: UciSectionView, o: NetworkObjectView) -> OpenWrtNetworkObjectBindingView {
    OpenWrtNetworkObjectBindingView {
        kind: o.kind(),
        id: o.id(),
        section_type: s.section_type,
        section: s.selector,
        present_options: sorted_texts(s.option_names()),
        dhcp_section: None,
        dhcp_present_options: Seq::empty(),
        dhcp_agent_owned: false,
    }
}

/// What a network section adds to a scan, given whether the object model accepts its object.
#[verifier::opaque]
pub open spec fn network_step(state: NetworkScanView, s: UciSectionView, valid: bool) -> Result<
    NetworkScanView,
    NetworkRenderErrorView,
> {
    let seen = NetworkScanView { occupied: state.occupied.push(s.selector), ..state };
    match managed_value(s) {
        None => Err(NetworkRenderErrorView::UnsafeOwnershipMarker(s.selector)),
        Some(managed) => if !is_supported_type(s.section_type) {
            left_alone(seen, s, managed)
        } else {
            match network_object_value(s, owner(managed)) {
                None => left_alone(seen, s, managed),
                Some(o) => if !valid {
                    left_alone(seen, s, managed)
                } else if object_from(state.objects, o.kind(), o.id(), 0) < state.objects.len() {
                    Err(NetworkRenderErrorView::DuplicateInventoryObject)
                } else if s.options.len() > MAX_PRESENT_OPTIONS {
                    Err(NetworkRenderErrorView::Capacity)
                } else {
                    Ok(
                        NetworkScanView {
                            objects: state.objects.push(o),
                            bindings: state.bindings.push(binding_of(s, o)),
                            ..seen
                        },
                    )
                },
            }
        },
    }
}

/// The verdict of the object model on the section of an index.
pub open spec fn verdict_at(valid: Seq<bool>, i: int) -> bool {
    0 <= i < valid.len() && valid[i]
}

/// What the network sections from `i` on add to a scan.
pub open spec fn network_scan(
    state: NetworkScanView,
    sections: Seq<UciSectionView>,
    valid: Seq<bool>,
    i: int,
) -> Result<NetworkScanView, NetworkRenderErrorView>
    decreases sections.len() - i,
{
    if i < 0 || i >= sections.len() {
        Ok(state)
    } else {
        match network_step(state, sections[i], verdict_at(valid, i)) {
            Err(e) => Err(e),
            Ok(next) => network_scan(next, sections, valid, i + 1),
        }
    }
}

/// The index of the first interface of an identity from `i` on, or the number of objects.
pub open spec fn interface_from(objects: Seq<NetworkObjectView>, id: Seq<char>, i: int) -> int
    decreases objects.len() - i,
{
    if i < 0 || i >= objects.len() {
        objects.len() as int
    } else if objects[i] is Interface && objects[i].id() == id {
        i
    } else {
        interface_from(objects, id, i + 1)
    }
}

/// An interface with a DHCP server, or without one.
pub open spec fn with_server(
    o: NetworkObjectView,
    server: Option<NetworkDhcpServerConfigView>,
) -> NetworkObjectView {
    match o {
        NetworkObjectView::Interface(i) => NetworkObjectView::Interface(
            NetworkInterfaceConfigView { dhcp_server: server, ..i },
        ),
        other => other,
    }
}

pub open spec fn with_dhcp_section(
    b: OpenWrtNetworkObjectBindingView,
    s: UciSectionView,
    managed: bool,
) -> OpenWrtNetworkObjectBindingView {
    OpenWrtNetworkObjectBindingView {
        dhcp_section: Some(s.selector),
        dhcp_present_options: sorted_texts(s.option_names()),
        dhcp_agent_owned: managed,
        ..b
    }
}

/// The interface that a DHCP section serves and the server that it describes.
pub open spec fn dhcp_join(objects: Seq<NetworkObjectView>, s: UciSectionView) -> Option<
    (int, NetworkDhcpServerConfigView),
> {
    if s.section_type != "dhcp"@ {
        None
    } else {
        match (s.scalar("interface"@), dhcp_server_value(s)) {
            (Some(id), Some(server)) => {
                let at = interface_from(objects, id, 0);
                if at < objects.len() {
                    Some((at, server))
                } else {
                    None
                }
            },
            _ => None,
        }
    }
}

/// What a DHCP section changes in a scan, given whether the object model accepts the interface with
/// the server.
pub open spec fn dhcp_step(state: NetworkScanView, s: UciSectionView, valid: bool) -> Result<
    NetworkScanView,
    NetworkRenderErrorView,
> {
    let seen = NetworkScanView { occupied: state.occupied.push(s.selector), ..state };
    match managed_value(s) {
        None => Err(NetworkRenderErrorView::UnsafeOwnershipMarker(s.selector)),
        Some(managed) => match dhcp_join(state.objects, s) {
            None => left_alone(seen, s, managed),
            Some((at, server)) => if !valid {
                if managed {
                    Err(NetworkRenderErrorView::UnsupportedManagedSection(s.selector))
                } else {
                    Ok(
                        NetworkScanView {
                            objects: state.objects.update(at, with_server(state.objects[at], None)),
                            read_only: state.read_only.push(s.selector),
                            ..seen
                        },
                    )
                }
            } else if at >= state.bindings.len() {
                Err(NetworkRenderErrorView::MalformedUci)
            } else if s.options.len() > MAX_PRESENT_OPTIONS {
                Err(NetworkRenderErrorView::Capacity)
            } else {
                Ok(
                    NetworkScanView {
                        objects: state.objects.update(
                            at,
                            with_server(state.objects[at], Some(server)),
                        ),
                        bindings: state.bindings.update(
                            at,
                            with_dhcp_section(state.bindings[at], s, managed),
                        ),
                        ..seen
                    },
                )
            },
        },
    }
}

/// What the DHCP sections from `i` on change in a scan.
pub open spec fn dhcp_scan(
    state: NetworkScanView,
    sections: Seq<UciSectionView>,
    valid: Seq<bool>,
    i: int,
) -> Result<NetworkScanView, NetworkRenderErrorView>
    decreases sections.len() - i,
{
    if i < 0 || i >= sections.len() {
        Ok(state)
    } else {
        match dhcp_step(state, sections[i], verdict_at(valid, i)) {
            Err(e) => Err(e),
            Ok(next) => dhcp_scan(next, sections, valid, i + 1),
        }
    }
}

/// The ports of the bridges from `i` on, behind `acc`.
pub open spec fn bridge_ports(
    acc: Seq<Seq<char>>,
    objects: Seq<NetworkObjectView>,
    i: int,
) -> Seq<Seq<char>>
    decreases objects.len() - i,
{
    if i < 0 || i >= objects.len() {
        acc
    } else {
        match objects[i] {
            NetworkObjectView::Bridge(b) => bridge_ports(acc + b.ports, objects, i + 1),
            _ => bridge_ports(acc, objects, i + 1),
        }
    }
}

/// The families and priorities of the enabled policy rules from `i` on, behind `acc`.
pub open spec fn rule_priorities(
    acc: Seq<(NetworkFamily, u32)>,
    objects: Seq<NetworkObjectView>,
    i: int,
) -> Seq<(NetworkFamily, u32)>
    decreases objects.len() - i,
{
    if i < 0 || i >= objects.len() {
        acc
    } else {
        match objects[i] {
            NetworkObjectView::PolicyRule(p) => if p.enabled {
                rule_priorities(acc.push((p.family, p.priority)), objects, i + 1)
            } else {
                rule_priorities(acc, objects, i + 1)
            },
            _ => rule_priorities(acc, objects, i + 1),
        }
    }
}

/// Whether no port belongs to two bridges and no two enabled rules share a family and a priority.
pub open spec fn is_unambiguous(objects: Seq<NetworkObjectView>) -> bool {
    bridge_ports(Seq::empty(), objects, 0).no_duplicates() && rule_priorities(
        Seq::empty(),
        objects,
        0,
    ).no_duplicates()
}

pub open spec fn empty_scan() -> NetworkScanView {
    NetworkScanView {
        objects: Seq::empty(),
        bindings: Seq::empty(),
        occupied: Seq::empty(),
        read_only: Seq::empty(),
    }
}

/// The snapshot that two packages make, given the verdicts of the object model on the object of each
/// section.
pub open spec fn network_snapshot(
    text: Seq<char>,
    dhcp_text: Seq<char>,
    valid: Seq<bool>,
    dhcp_valid: Seq<bool>,
) -> Result<OpenWrtNetworkInventorySnapshotView, NetworkRenderErrorView> {
    match (sections_of(text, "network"@), sections_of(dhcp_text, "dhcp"@)) {
        (Err(e), _) => Err(e),
        (Ok(_), Err(e)) => Err(e),
        (Ok(sections), Ok(dhcp_sections)) => match network_scan(empty_scan(), sections, valid, 0) {
            Err(e) => Err(e),
            Ok(first) => match dhcp_scan(
                NetworkScanView { occupied: Seq::empty(), read_only: Seq::empty(), ..first },
                dhcp_sections,
                dhcp_valid,
                0,
            ) {
                Err(e) => Err(e),
                Ok(second) => if !is_unambiguous(second.objects) {
                    Err(NetworkRenderErrorView::AmbiguousInventory)
                } else {
                    Ok(
                        OpenWrtNetworkInventorySnapshotView {
                            inventory: NetworkInventoryView { objects: second.objects },
                            bindings: second.bindings,
                            occupied_sections: first.occupied,
                            read_only_sections: first.read_only,
                            dhcp_occupied_sections: second.occupied,
                            dhcp_read_only_sections: second.read_only,
                        },
                    )
                },
            },
        },
    }
}

fn leave_alone(state: &mut NetworkScan, section: &UciSection, managed: bool) -> (r: Result<
    (),
    NetworkRenderError,
>)
    ensures
        scan_result(r, final(state)@) == left_alone(old(state)@, section@, managed),
{
    if managed {
        Err(NetworkRenderError::UnsupportedManagedSection(section.selector.clone()))
    } else {
        state.read_only.push(section.selector.clone());
        Ok(())
    }
}

/// The state behind a step that succeeded, or the error.
pub open spec fn scan_result(
    r: Result<(), NetworkRenderError>,
    state: NetworkScanView,
) -> Result<NetworkScanView, NetworkRenderErrorView> {
    match r {
        Ok(()) => Ok(state),
        Err(e) => Err(e@),
    }
}

fn scan_network_section(state: &mut NetworkScan, section: &UciSection, valid: bool) -> (r: Result<
    (),
    NetworkRenderError,
>)
    ensures
        scan_result(r, final(state)@) == network_step(old(state)@, section@, valid),
{
    reveal(network_step);
    state.occupied.push(section.selector.clone());
    let managed = match managed(section) {
        None => {
            return Err(NetworkRenderError::UnsafeOwnershipMarker(section.selector.clone()));
        },
        Some(m) => m,
    };
    if !supported_type(section.section_type.as_str()) {
        return leave_alone(state, section, managed);
    }
    let ownership = if managed {
        ObjectOwnership::AgentOwned
    } else {
        ObjectOwnership::PlatformNative
    };
    match decode_section(section, ownership) {
        None => leave_alone(state, section, managed),
        Some(object) => {
            if !valid {
                return leave_alone(state, section, managed);
            }
            if find_object(&state.objects, object.kind(), object.id()) < state.objects.len() {
                return Err(NetworkRenderError::DuplicateInventoryObject);
            }
            if section.options.len() > MAX_PRESENT_OPTIONS {
                return Err(NetworkRenderError::Capacity);
            }
            let binding = OpenWrtNetworkObjectBinding {
                kind: object.kind().to_owned(),
                id: object.id().to_owned(),
                section_type: section.section_type.clone(),
                section: section.selector.clone(),
                present_options: sort_texts(&section.names()),
                dhcp_section: None,
                dhcp_present_options: Vec::new(),
                dhcp_agent_owned: false,
            };
            assert(binding@ =~= binding_of(section@, object@));
            state.bindings.push(binding);
            state.objects.push(object);
            Ok(())
        },
    }
}

fn find_interface(objects: &Vec<NetworkObject>, id: &str) -> (r: usize)
    ensures
        r == interface_from(views(objects@), id@, 0),
        r <= objects@.len(),
{
    let mut i: usize = 0;
    while i < objects.len()
        invariant
            i <= objects@.len(),
            interface_from(views(objects@), id@, i as int) == interface_from(
                views(objects@),
                id@,
                0,
            ),
        decreases objects@.len() - i,
    {
        match &objects[i] {
            NetworkObject::Interface(value) => {
                if same(value.id.as_str(), id) {
                    return i;
                }
            },
            _ => {},
        }
        i = i + 1;
    }
    i
}

fn set_server(
    object: NetworkObject,
    server: Option<crate::network_model::NetworkDhcpServerConfig>,
) -> (r: NetworkObject)
    ensures
        r@ == with_server(object@, opt(server)),
{
    match object {
        NetworkObject::Interface(value) => {
            let mut next = value;
            next.dhcp_server = server;
            NetworkObject::Interface(next)
        },
        other => other,
    }
}

fn replace_object(objects: &mut Vec<NetworkObject>, at: usize, object: NetworkObject)
    requires
        at < old(objects)@.len(),
    ensures
        views(final(objects)@) == views(old(objects)@).update(at as int, object@),
{
    let ghost before = views(objects@);
    objects.set(at, object);
    assert(views(objects@) =~= before.update(at as int, object@));
}

fn join_section(objects: &Vec<NetworkObject>, section: &UciSection) -> (r: Option<
    (usize, crate::network_model::NetworkDhcpServerConfig),
>)
    ensures
        match r {
            Some((at, server)) => dhcp_join(views(objects@), section@) == Some((at as int, server@))
                && at < objects@.len(),
            None => dhcp_join(views(objects@), section@) is None,
        },
{
    if !same(section.section_type.as_str(), "dhcp") {
        return None;
    }
    match (section.scalar("interface"), decode_dhcp_server(section)) {
        (Some(id), Some(server)) => {
            let at: usize = find_interface(objects, id);
            if at < objects.len() {
                Some((at, server))
            } else {
                None
            }
        },
        _ => None,
    }
}

fn scan_dhcp_section(state: &mut NetworkScan, section: &UciSection, valid: bool) -> (r: Result<
    (),
    NetworkRenderError,
>)
    ensures
        scan_result(r, final(state)@) == dhcp_step(old(state)@, section@, valid),
{
    state.occupied.push(section.selector.clone());
    let managed = match managed(section) {
        None => {
            return Err(NetworkRenderError::UnsafeOwnershipMarker(section.selector.clone()));
        },
        Some(m) => m,
    };
    match join_section(&state.objects, section) {
        None => leave_alone(state, section, managed),
        Some((at, server)) => {
            assert(state@.objects[at as int] == state.objects@[at as int]@);
            if !valid {
                if managed {
                    return Err(
                        NetworkRenderError::UnsupportedManagedSection(section.selector.clone()),
                    );
                }
                let object = set_server(state.objects[at].twin(), None);
                replace_object(&mut state.objects, at, object);
                state.read_only.push(section.selector.clone());
                return Ok(());
            }
            if at >= state.bindings.len() {
                return Err(NetworkRenderError::MalformedUci);
            }
            if section.options.len() > MAX_PRESENT_OPTIONS {
                return Err(NetworkRenderError::Capacity);
            }
            let object = set_server(state.objects[at].twin(), Some(server));
            replace_object(&mut state.objects, at, object);
            let mut binding = state.bindings[at].twin();
            binding.dhcp_section = Some(section.selector.clone());
            binding.dhcp_present_options = sort_texts(&section.names());
            binding.dhcp_agent_owned = managed;
            let ghost before = views(state.bindings@);
            assert(before[at as int] == state.bindings@[at as int]@);
            assert(binding@ =~= with_dhcp_section(before[at as int], section@, managed));
            state.bindings.set(at, binding);
            assert(views(state.bindings@) =~= before.update(at as int, binding@));
            Ok(())
        },
    }
}

/// Whether no text occurs twice.
pub fn all_distinct(v: &Vec<String>) -> (r: bool)
    ensures
        r == views(v@).no_duplicates(),
{
    let mut i: usize = 0;
    while i < v.len()
        invariant
            i <= v@.len(),
            forall|a: int, b: int| 0 <= a < b < i ==> views(v@)[a] != views(v@)[b],
        decreases v@.len() - i,
    {
        let mut j: usize = 0;
        while j < i
            invariant
                j <= i < v@.len(),
                forall|a: int| 0 <= a < j ==> views(v@)[a] != views(v@)[i as int],
            decreases i - j,
        {
            if same(v[j].as_str(), v[i].as_str()) {
                assert(views(v@)[j as int] == views(v@)[i as int]);
                return false;
            }
            j = j + 1;
        }
        i = i + 1;
    }
    true
}

fn distinct_priorities(v: &Vec<(NetworkFamily, u32)>) -> (r: bool)
    ensures
        r == v@.no_duplicates(),
{
    let mut i: usize = 0;
    while i < v.len()
        invariant
            i <= v@.len(),
            forall|a: int, b: int| 0 <= a < b < i ==> v@[a] != v@[b],
        decreases v@.len() - i,
    {
        let mut j: usize = 0;
        while j < i
            invariant
                j <= i < v@.len(),
                forall|a: int| 0 <= a < j ==> v@[a] != v@[i as int],
            decreases i - j,
        {
            if v[j].0 == v[i].0 && v[j].1 == v[i].1 {
                assert(v@[j as int] == v@[i as int]);
                return false;
            }
            j = j + 1;
        }
        i = i + 1;
    }
    true
}

fn validate_inventory_topology(objects: &Vec<NetworkObject>) -> (r: Result<(), NetworkRenderError>)
    ensures
        r == (if is_unambiguous(views(objects@)) {
            Ok::<(), NetworkRenderError>(())
        } else {
            Err(NetworkRenderError::AmbiguousInventory)
        }),
{
    let mut ports: Vec<String> = Vec::new();
    let mut priorities: Vec<(NetworkFamily, u32)> = Vec::new();
    let mut i: usize = 0;
    while i < objects.len()
        invariant
            i <= objects@.len(),
            bridge_ports(views(ports@), views(objects@), i as int) == bridge_ports(
                Seq::empty(),
                views(objects@),
                0,
            ),
            rule_priorities(priorities@, views(objects@), i as int) == rule_priorities(
                Seq::empty(),
                views(objects@),
                0,
            ),
        decreases objects@.len() - i,
    {
        match &objects[i] {
            NetworkObject::Bridge(value) => {
                let ghost before = views(ports@);
                let ghost all = views(value.ports@);
                let mut j: usize = 0;
                while j < value.ports.len()
                    invariant
                        j <= value.ports@.len(),
                        all == views(value.ports@),
                        views(ports@) =~= before + all.take(j as int),
                    decreases value.ports@.len() - j,
                {
                    ports.push(value.ports[j].clone());
                    j = j + 1;
                }
                assert(all.take(j as int) =~= all);
            },
            NetworkObject::PolicyRule(value) => {
                if value.enabled {
                    priorities.push((value.family, value.priority));
                }
            },
            _ => {},
        }
        i = i + 1;
    }
    if all_distinct(&ports) && distinct_priorities(&priorities) {
        Ok(())
    } else {
        Err(NetworkRenderError::AmbiguousInventory)
    }
}

/// The verdict on the section of an index; a missing one counts against it.
fn verdict_of(valid: &[bool], i: usize) -> (r: bool)
    ensures
        r == verdict_at(valid@, i as int),
{
    i < valid.len() && valid[i]
}

fn scan_network(sections: &Vec<UciSection>, valid: &[bool]) -> (r: Result<
    NetworkScan,
    NetworkRenderError,
>)
    ensures
        vres(r) == network_scan(empty_scan(), views(sections@), valid@, 0),
{
    let mut state = NetworkScan {
        objects: Vec::new(),
        bindings: Vec::new(),
        occupied: Vec::new(),
        read_only: Vec::new(),
    };
    assert(state@ =~= empty_scan());
    let mut i: usize = 0;
    while i < sections.len()
        invariant
            i <= sections@.len(),
            network_scan(state@, views(sections@), valid@, i as int) == network_scan(
                empty_scan(),
                views(sections@),
                valid@,
                0,
            ),
        decreases sections@.len() - i,
    {
        assert(views(sections@)[i as int] == sections@[i as int]@);
        match scan_network_section(&mut state, &sections[i], verdict_of(valid, i)) {
            Err(e) => {
                return Err(e);
            },
            Ok(()) => {},
        }
        i = i + 1;
    }
    Ok(state)
}

/// Reconstructs typed objects and their bindings from one network package.
pub fn inspect_openwrt_network_inventory(uci_show: &str, valid: &[bool]) -> (r: Result<
    OpenWrtNetworkInventorySnapshot,
    NetworkRenderError,
>)
    ensures
        vres(r) == network_snapshot(uci_show@, ""@, valid@, Seq::empty()),
{
    let none: [bool; 0] = [];
    assert(none@ =~= Seq::empty());
    inspect_openwrt_network_inventory_with_dhcp(uci_show, "", valid, &none)
}

/// Reconstructs typed objects, with their DHCP servers, from one network and one DHCP package.
///
/// The verdicts say of each section, by its index, whether the object model accepts the object that
/// it describes, and of each DHCP section, whether it accepts the interface with the server. A
/// section whose object is refused stays visible as read-only; one that the agent manages makes the
/// whole inspection fail.
pub fn inspect_openwrt_network_inventory_with_dhcp(
    uci_show: &str,
    dhcp_show: &str,
    valid: &[bool],
    dhcp_valid: &[bool],
) -> (r: Result<OpenWrtNetworkInventorySnapshot, NetworkRenderError>)
    ensures
        vres(r) == network_snapshot(uci_show@, dhcp_show@, valid@, dhcp_valid@),
{
    let sections = match parse_sections(uci_show, "network") {
        Ok(s) => s,
        Err(e) => {
            return Err(e);
        },
    };
    let dhcp_sections = match parse_sections(dhcp_show, "dhcp") {
        Ok(s) => s,
        Err(e) => {
            return Err(e);
        },
    };
    let first = match scan_network(&sections, valid) {
        Ok(s) => s,
        Err(e) => {
            return Err(e);
        },
    };
    let ghost start = NetworkScanView { occupied: Seq::empty(), read_only: Seq::empty(), ..first@ };
    let ghost seen = first@;
    let NetworkScan { objects, bindings, occupied, read_only } = first;
    let mut state = NetworkScan { objects, bindings, occupied: Vec::new(), read_only: Vec::new() };
    assert(state@ =~= start);
    let mut i: usize = 0;
    while i < dhcp_sections.len()
        invariant
            i <= dhcp_sections@.len(),
            sections_of(uci_show@, "network"@) == Ok::<
                Seq<UciSectionView>,
                NetworkRenderErrorView,
            >(views(sections@)),
            sections_of(dhcp_show@, "dhcp"@) == Ok::<Seq<UciSectionView>, NetworkRenderErrorView>(
                views(dhcp_sections@),
            ),
            network_scan(empty_scan(), views(sections@), valid@, 0) == Ok::<
                NetworkScanView,
                NetworkRenderErrorView,
            >(seen),
            start == (NetworkScanView { occupied: Seq::empty(), read_only: Seq::empty(), ..seen }),
            views(occupied@) == seen.occupied,
            views(read_only@) == seen.read_only,
            dhcp_scan(state@, views(dhcp_sections@), dhcp_valid@, i as int) == dhcp_scan(
                start,
                views(dhcp_sections@),
                dhcp_valid@,
                0,
            ),
        decreases dhcp_sections@.len() - i,
    {
        assert(views(dhcp_sections@)[i as int] == dhcp_sections@[i as int]@);
        match scan_dhcp_section(&mut state, &dhcp_sections[i], verdict_of(dhcp_valid, i)) {
            Err(e) => {
                return Err(e);
            },
            Ok(()) => {},
        }
        i = i + 1;
    }
    match validate_inventory_topology(&state.objects) {
        Err(e) => {
            return Err(e);
        },
        Ok(()) => {},
    }
    let NetworkScan {
        objects,
        bindings,
        occupied: dhcp_occupied_sections,
        read_only: dhcp_read_only_sections,
    } = state;
    Ok(
        OpenWrtNetworkInventorySnapshot {
            inventory: NetworkInventory { objects },
            bindings,
            occupied_sections: occupied,
            read_only_sections: read_only,
            dhcp_occupied_sections,
            dhcp_read_only_sections,
        },
    )
}

/// The object that a section describes, as far as the object model is asked about it.
pub open spec fn candidate_of(s: UciSectionView) -> Option<NetworkObjectView> {
    match managed_value(s) {
        Some(managed) => if is_supported_type(s.section_type) {
            network_object_value(s, owner(managed))
        } else {
            None
        },
        None => None,
    }
}

/// An object, or none, with its view.
pub struct Candidate {
    pub object: Option<NetworkObject>,
}

impl View for Candidate {
    type V = Option<NetworkObjectView>;

    open spec fn view(&self) -> Option<NetworkObjectView> {
        opt(self.object)
    }
}

/// The objects that the object model is to be asked about, one for each network section.
pub fn network_candidates(uci_show: &str) -> (r: Result<Vec<Candidate>, NetworkRenderError>)
    ensures
        lvres(r) == (match sections_of(uci_show@, "network"@) {
            Ok(s) => Ok(Seq::new(s.len(), |i: int| candidate_of(s[i]))),
            Err(e) => Err(e),
        }),
{
    let sections = match parse_sections(uci_show, "network") {
        Ok(s) => s,
        Err(e) => {
            return Err(e);
        },
    };
    let mut r: Vec<Candidate> = Vec::new();
    let mut i: usize = 0;
    while i < sections.len()
        invariant
            i <= sections@.len(),
            r@.len() == i,
            forall|j: int|
                0 <= j < i ==> #[trigger] views(r@)[j] == candidate_of(views(sections@)[j]),
        decreases sections@.len() - i,
    {
        let object = match managed(&sections[i]) {
            Some(m) => if supported_type(sections[i].section_type.as_str()) {
                decode_section(
                    &sections[i],
                    if m {
                        ObjectOwnership::AgentOwned
                    } else {
                        ObjectOwnership::PlatformNative
                    },
                )
            } else {
                None
            },
            None => None,
        };
        assert(opt(object) == candidate_of(views(sections@)[i as int]));
        r.push(Candidate { object });
        i = i + 1;
    }
    let ghost s = views(sections@);
    assert(views(r@) =~= Seq::new(s.len(), |i: int| candidate_of(s[i])));
    Ok(r)
}

/// The interface with the server of a DHCP section.
pub open spec fn dhcp_candidate_of(
    objects: Seq<NetworkObjectView>,
    s: UciSectionView,
) -> Option<NetworkObjectView> {
    match dhcp_join(objects, s) {
        Some((at, server)) => Some(with_server(objects[at], Some(server))),
        None => None,
    }
}

/// The interfaces that the object model is to be asked about, one for each DHCP section, given its
/// verdicts on the network sections.
pub fn dhcp_candidates(uci_show: &str, dhcp_show: &str, valid: &[bool]) -> (r: Result<
    Vec<Candidate>,
    NetworkRenderError,
>)
    ensures
        lvres(r) == (match (sections_of(uci_show@, "network"@), sections_of(dhcp_show@, "dhcp"@)) {
            (Err(e), _) => Err(e),
            (Ok(_), Err(e)) => Err(e),
            (Ok(s), Ok(d)) => match network_scan(empty_scan(), s, valid@, 0) {
                Err(e) => Err(e),
                Ok(first) => Ok(
                    Seq::new(d.len(), |i: int| dhcp_candidate_of(first.objects, d[i])),
                ),
            },
        }),
{
    let sections = match parse_sections(uci_show, "network") {
        Ok(s) => s,
        Err(e) => {
            return Err(e);
        },
    };
    let dhcp_sections = match parse_sections(dhcp_show, "dhcp") {
        Ok(s) => s,
        Err(e) => {
            return Err(e);
        },
    };
    let first = match scan_network(&sections, valid) {
        Ok(s) => s,
        Err(e) => {
            return Err(e);
        },
    };
    let mut r: Vec<Candidate> = Vec::new();
    let mut i: usize = 0;
    while i < dhcp_sections.len()
        invariant
            i <= dhcp_sections@.len(),
            r@.len() == i,
            forall|j: int|
                0 <= j < i ==> #[trigger] views(r@)[j] == dhcp_candidate_of(
                    first@.objects,
                    views(dhcp_sections@)[j],
                ),
        decreases dhcp_sections@.len() - i,
    {
        let object = match join_section(&first.objects, &dhcp_sections[i]) {
            Some((at, server)) => {
                assert(first@.objects[at as int] == first.objects@[at as int]@);
                Some(set_server(first.objects[at].twin(), Some(server)))
            },
            None => None,
        };
        assert(opt(object) == dhcp_candidate_of(first@.objects, views(dhcp_sections@)[i as int]));
        r.push(Candidate { object });
        i = i + 1;
    }
    let ghost d = views(dhcp_sections@);
    assert(views(r@) =~= Seq::new(d.len(), |i: int| dhcp_candidate_of(first@.objects, d[i])));
    Ok(r)
}

} // verus!
