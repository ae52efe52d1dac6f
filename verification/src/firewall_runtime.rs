//! Boot-bound canonical inventory of generic systems.

use vstd::prelude::*;

use vstd::string::*;

use crate::change::ObjectOwnership;
use crate::firewall_command::{
    FirewallCommand, FirewallCommandError, FirewallCommandErrorView, FirewallCommandExecutor,
    FirewallCommandOutput, FirewallCommandOutputView,
};
use crate::firewall_iptables::{
    family_state, inspect_iptables_family_state, iptables_stage, render_iptables_firewall_stage,
    IptablesFamilyState, IptablesFirewallStage, IptablesFirewallStageView, IptablesRenderError,
    IptablesRenderErrorView,
};
use crate::firewall_model::{
    FirewallInventory, FirewallInventoryView, FirewallMutationPlan, FirewallObject, FirewallObjectView,
    FirewallPlannedChangeView,
};
use crate::firewall_nft::{
    inspect_nftables_table_state, nftables_stage, render_nftables_firewall_stage, table_state,
    NftablesFirewallStage, NftablesFirewallStageView, NftablesRenderError, NftablesRenderErrorView,
    NftablesTableState,
};
use crate::firewall_project::{
    is_listing, law_projection_is_listing, project_agent_objects, projected, FirewallProjectionError,
};
use crate::firewall_uci::text_view;
use crate::items::{copy_list, copy_opt, same_list, same_opt, Item};
use crate::network_openwrt::verdict_at;
use crate::network_reconcile::lemma_verdicts;
use crate::network_runtime::lemma_bytes;
use crate::text::{alnum, byte_len, byte_length, chars_of, is_alnum, same, utf8_text, utf8_value};
use crate::views::{group_views, opt, views, vres};

verus! {

broadcast use group_views;

/// The firewall control planes of a generic system.
#[derive(Debug, Clone, Copy, PartialEq, Eq, Structural)]
pub enum GenericFirewallBackend {
    Nftables,
    Iptables,
}

impl View for GenericFirewallBackend {
    type V = GenericFirewallBackend;

    open spec fn view(&self) -> GenericFirewallBackend {
        *self
    }
}

impl Item for GenericFirewallBackend {
    fn alike(&self, other: &Self) -> (r: bool) {
        *self == *other
    }

    fn twin(&self) -> (r: Self) {
        *self
    }
}

/// Why native state, a record or a plan was refused.
#[derive(Debug, Clone, PartialEq, Eq)]
pub enum GenericFirewallStateError {
    NativeInspection,
    BackendMismatch,
    CorruptState,
    Capacity,
    InvalidBootId,
    StaleState,
    OrphanedNativeState,
    NativeDrift,
    NativeStateMissing,
    PartialFamilyState,
    Ownership,
    PlanMismatch,
    Nftables(NftablesRenderError),
    Iptables(IptablesRenderError),
}

#[verifier::ext_equal]
pub enum GenericFirewallStateErrorView {
    NativeInspection,
    BackendMismatch,
    CorruptState,
    Capacity,
    InvalidBootId,
    StaleState,
    OrphanedNativeState,
    NativeDrift,
    NativeStateMissing,
    PartialFamilyState,
    Ownership,
    PlanMismatch,
    Nftables(NftablesRenderErrorView),
    Iptables(IptablesRenderErrorView),
}

impl View for GenericFirewallStateError {
    type V = GenericFirewallStateErrorView;

    open spec fn view(&self) -> GenericFirewallStateErrorView {
        match self {
            GenericFirewallStateError::NativeInspection =>
                GenericFirewallStateErrorView::NativeInspection,
            GenericFirewallStateError::BackendMismatch => GenericFirewallStateErrorView::BackendMismatch,
            GenericFirewallStateError::CorruptState => GenericFirewallStateErrorView::CorruptState,
            GenericFirewallStateError::Capacity => GenericFirewallStateErrorView::Capacity,
            GenericFirewallStateError::InvalidBootId => GenericFirewallStateErrorView::InvalidBootId,
            GenericFirewallStateError::StaleState => GenericFirewallStateErrorView::StaleState,
            GenericFirewallStateError::OrphanedNativeState =>
                GenericFirewallStateErrorView::OrphanedNativeState,
            GenericFirewallStateError::NativeDrift => GenericFirewallStateErrorView::NativeDrift,
            GenericFirewallStateError::NativeStateMissing =>
                GenericFirewallStateErrorView::NativeStateMissing,
            GenericFirewallStateError::PartialFamilyState =>
                GenericFirewallStateErrorView::PartialFamilyState,
            GenericFirewallStateError::Ownership => GenericFirewallStateErrorView::Ownership,
            GenericFirewallStateError::PlanMismatch => GenericFirewallStateErrorView::PlanMismatch,
            GenericFirewallStateError::Nftables(x) => GenericFirewallStateErrorView::Nftables(x@),
            GenericFirewallStateError::Iptables(x) => GenericFirewallStateErrorView::Iptables(x@),
        }
    }
}

impl GenericFirewallStateErrorView {
    /// The text of the error.
    pub open spec fn message_text(self) -> Seq<char> {
        match self {
            GenericFirewallStateErrorView::NativeInspection =>
                "generic firewall native inspection failed"@,
            GenericFirewallStateErrorView::BackendMismatch => "generic firewall backend and native observation do not match"@,
            GenericFirewallStateErrorView::CorruptState =>
                "generic firewall canonical state is malformed"@,
            GenericFirewallStateErrorView::Capacity =>
                "generic firewall canonical state exceeds its capacity"@,
            GenericFirewallStateErrorView::InvalidBootId =>
                "generic firewall boot identifier is invalid"@,
            GenericFirewallStateErrorView::StaleState =>
                "generic firewall canonical state belongs to another boot or backend"@,
            GenericFirewallStateErrorView::OrphanedNativeState =>
                "Agent-owned native firewall state has no volatile canonical record"@,
            GenericFirewallStateErrorView::NativeDrift =>
                "native firewall state no longer matches the canonical inventory"@,
            GenericFirewallStateErrorView::NativeStateMissing =>
                "native firewall state is absent after application"@,
            GenericFirewallStateErrorView::PartialFamilyState =>
                "iptables and ip6tables Agent-owned state is partial"@,
            GenericFirewallStateErrorView::Ownership =>
                "generic firewall canonical state contains non-Agent-owned objects"@,
            GenericFirewallStateErrorView::PlanMismatch => "generic firewall mutation plan does not match the reconciled inventory"@,
            GenericFirewallStateErrorView::Nftables(x) => "nftables state error: "@ + x.message_text(),
            GenericFirewallStateErrorView::Iptables(x) => "iptables state error: "@ + x.message_text(),
        }
    }
}

impl GenericFirewallStateError {
    /// The text of the error.
    pub fn message(&self) -> (r: String)
        ensures
            r@ == self@.message_text(),
    {
        match self {
            GenericFirewallStateError::NativeInspection =>
                "generic firewall native inspection failed".to_owned(),
            GenericFirewallStateError::BackendMismatch => "generic firewall backend and native observation do not match".to_owned(),
            GenericFirewallStateError::CorruptState =>
                "generic firewall canonical state is malformed".to_owned(),
            GenericFirewallStateError::Capacity =>
                "generic firewall canonical state exceeds its capacity".to_owned(),
            GenericFirewallStateError::InvalidBootId =>
                "generic firewall boot identifier is invalid".to_owned(),
            GenericFirewallStateError::StaleState =>
                "generic firewall canonical state belongs to another boot or backend".to_owned(),
            GenericFirewallStateError::OrphanedNativeState =>
                "Agent-owned native firewall state has no volatile canonical record".to_owned(),
            GenericFirewallStateError::NativeDrift =>
                "native firewall state no longer matches the canonical inventory".to_owned(),
            GenericFirewallStateError::NativeStateMissing =>
                "native firewall state is absent after application".to_owned(),
            GenericFirewallStateError::PartialFamilyState =>
                "iptables and ip6tables Agent-owned state is partial".to_owned(),
            GenericFirewallStateError::Ownership =>
                "generic firewall canonical state contains non-Agent-owned objects".to_owned(),
            GenericFirewallStateError::PlanMismatch => "generic firewall mutation plan does not match the reconciled inventory".to_owned(),
            GenericFirewallStateError::Nftables(x) => {
                let mut r = "nftables state error: ".to_owned();
                r.append(x.message().as_str());
                r
            },
            GenericFirewallStateError::Iptables(x) => {
                let mut r = "iptables state error: ".to_owned();
                r.append(x.message().as_str());
                r
            },
        }
    }
}

pub const SCHEMA_VERSION: u32 = 1;

pub const MAX_CANONICAL_STATE_BYTES: usize = 262144;

pub const MAX_OBJECTS: usize = 256;

pub const MAX_BOOT_ID_BYTES: usize = 128;

/// Fresh native output, gathered right before planning or applying.
#[derive(Debug, Clone, Copy)]
pub enum GenericFirewallObservation<'a> {
    /// The listing of the managed table; none where the table is absent.
    Nftables(Option<&'a str>),
    /// The complete rule sets of both families.
    Iptables { ipv4_save: &'a str, ipv6_save: &'a str },
}

#[verifier::ext_equal]
pub enum GenericFirewallObservationView {
    Nftables(Option<Seq<char>>),
    Iptables { ipv4_save: Seq<char>, ipv6_save: Seq<char> },
}

impl<'a> View for GenericFirewallObservation<'a> {
    type V = GenericFirewallObservationView;

    open spec fn view(&self) -> GenericFirewallObservationView {
        match self {
            GenericFirewallObservation::Nftables(l) => GenericFirewallObservationView::Nftables(
                text_view(*l),
            ),
            GenericFirewallObservation::Iptables {
                ipv4_save,
                ipv6_save,
            } => GenericFirewallObservationView::Iptables {
                ipv4_save: ipv4_save@,
                ipv6_save: ipv6_save@,
            },
        }
    }
}

/// What identifies native state that the agent owns.
#[derive(Debug, Clone, PartialEq, Eq)]
pub enum NativeFingerprint {
    Nftables { digest: String },
    Iptables { ipv4_digest: String, ipv6_digest: String },
}

#[verifier::ext_equal]
pub enum NativeFingerprintView {
    Nftables { digest: Seq<char> },
    Iptables { ipv4_digest: Seq<char>, ipv6_digest: Seq<char> },
}

impl View for NativeFingerprint {
    type V = NativeFingerprintView;

    open spec fn view(&self) -> NativeFingerprintView {
        match self {
            NativeFingerprint::Nftables { digest } => NativeFingerprintView::Nftables {
                digest: digest@,
            },
            NativeFingerprint::Iptables {
                ipv4_digest,
                ipv6_digest,
            } => NativeFingerprintView::Iptables {
                ipv4_digest: ipv4_digest@,
                ipv6_digest: ipv6_digest@,
            },
        }
    }
}

impl Item for NativeFingerprint {
    fn alike(&self, other: &Self) -> (r: bool) {
        match (self, other) {
            (NativeFingerprint::Nftables { digest: a }, NativeFingerprint::Nftables { digest: b }) => same(
                a.as_str(),
                b.as_str(),
            ),
            (
                NativeFingerprint::Iptables { ipv4_digest: a, ipv6_digest: b },
                NativeFingerprint::Iptables { ipv4_digest: c, ipv6_digest: d },
            ) => same(a.as_str(), c.as_str()) && same(b.as_str(), d.as_str()),
            _ => false,
        }
    }

    fn twin(&self) -> (r: Self) {
        match self {
            NativeFingerprint::Nftables { digest } => NativeFingerprint::Nftables {
                digest: digest.clone(),
            },
            NativeFingerprint::Iptables { ipv4_digest, ipv6_digest } => NativeFingerprint::Iptables {
                ipv4_digest: ipv4_digest.clone(),
                ipv6_digest: ipv6_digest.clone(),
            },
        }
    }
}

/// The digests of the native state that the agent owns: of the managed table, or of the chains of both
/// families.
#[derive(Debug, PartialEq, Eq)]
pub struct OwnedDigests {
    pub nftables: Result<String, NftablesRenderError>,
    pub ipv4: Result<String, IptablesRenderError>,
    pub ipv6: Result<String, IptablesRenderError>,
}

#[verifier::ext_equal]
pub struct OwnedDigestsView {
    pub nftables: Result<Seq<char>, NftablesRenderErrorView>,
    pub ipv4: Result<Seq<char>, IptablesRenderErrorView>,
    pub ipv6: Result<Seq<char>, IptablesRenderErrorView>,
}

impl View for OwnedDigests {
    type V = OwnedDigestsView;

    open spec fn view(&self) -> OwnedDigestsView {
        OwnedDigestsView {
            nftables: vres(self.nftables),
            ipv4: vres(self.ipv4),
            ipv6: vres(self.ipv6),
        }
    }
}

/// What the agent records of the objects that it owns, bound to a boot and to native state.
#[derive(Debug, Clone, PartialEq, Eq)]
pub struct CanonicalState {
    pub schema_version: u32,
    pub boot_id: String,
    pub backend: GenericFirewallBackend,
    pub inventory: FirewallInventory,
    pub native: NativeFingerprint,
}

#[verifier::ext_equal]
pub struct CanonicalStateView {
    pub schema_version: u32,
    pub boot_id: Seq<char>,
    pub backend: GenericFirewallBackend,
    pub inventory: FirewallInventoryView,
    pub native: NativeFingerprintView,
}

impl View for CanonicalState {
    type V = CanonicalStateView;

    open spec fn view(&self) -> CanonicalStateView {
        CanonicalStateView {
            schema_version: self.schema_version,
            boot_id: self.boot_id@,
            backend: self.backend,
            inventory: self.inventory@,
            native: self.native@,
        }
    }
}

impl Item for CanonicalState {
    fn alike(&self, other: &Self) -> (r: bool) {
        self.schema_version == other.schema_version
            && same(self.boot_id.as_str(), other.boot_id.as_str())
            && self.backend == other.backend
            && self.inventory.alike(&other.inventory)
            && self.native.alike(&other.native)
    }

    fn twin(&self) -> (r: Self) {
        CanonicalState {
            schema_version: self.schema_version,
            boot_id: self.boot_id.clone(),
            backend: self.backend,
            inventory: self.inventory.twin(),
            native: self.native.twin(),
        }
    }
}

/// A stored record: its size, the state that it decodes to, if it does, and the verdicts of the object
/// model on the objects of the state, by their index.
#[derive(Debug, Clone, PartialEq, Eq)]
pub struct FirewallCanonicalRecord {
    pub encoded_bytes: usize,
    pub state: Option<CanonicalState>,
    pub valid: Vec<bool>,
}

#[verifier::ext_equal]
pub struct FirewallCanonicalRecordView {
    pub encoded_bytes: usize,
    pub state: Option<CanonicalStateView>,
    pub valid: Seq<bool>,
}

impl View for FirewallCanonicalRecord {
    type V = FirewallCanonicalRecordView;

    open spec fn view(&self) -> FirewallCanonicalRecordView {
        FirewallCanonicalRecordView {
            encoded_bytes: self.encoded_bytes,
            state: opt(self.state),
            valid: views(self.valid@),
        }
    }
}

impl Item for FirewallCanonicalRecord {
    fn alike(&self, other: &Self) -> (r: bool) {
        self.encoded_bytes == other.encoded_bytes
            && same_opt(&self.state, &other.state)
            && same_list(&self.valid, &other.valid)
    }

    fn twin(&self) -> (r: Self) {
        FirewallCanonicalRecord {
            encoded_bytes: self.encoded_bytes,
            state: copy_opt(&self.state),
            valid: copy_list(&self.valid),
        }
    }
}

/// A typed inventory that was proven against one fresh native observation.
#[derive(Debug, Clone, PartialEq, Eq)]
pub struct GenericFirewallInventorySnapshot {
    boot_id: String,
    backend: GenericFirewallBackend,
    inventory: FirewallInventory,
    native: Option<NativeFingerprint>,
}

#[verifier::ext_equal]
pub struct GenericFirewallInventorySnapshotView {
    pub boot_id: Seq<char>,
    pub backend: GenericFirewallBackend,
    pub inventory: FirewallInventoryView,
    pub native: Option<NativeFingerprintView>,
}

impl View for GenericFirewallInventorySnapshot {
    type V = GenericFirewallInventorySnapshotView;

    closed spec fn view(&self) -> GenericFirewallInventorySnapshotView {
        GenericFirewallInventorySnapshotView {
            boot_id: self.boot_id@,
            backend: self.backend,
            inventory: self.inventory@,
            native: opt(self.native),
        }
    }
}

impl Item for GenericFirewallInventorySnapshot {
    fn alike(&self, other: &Self) -> (r: bool) {
        same(self.boot_id.as_str(), other.boot_id.as_str())
            && self.backend == other.backend
            && self.inventory.alike(&other.inventory)
            && same_opt(&self.native, &other.native)
    }

    fn twin(&self) -> (r: Self) {
        GenericFirewallInventorySnapshot {
            boot_id: self.boot_id.clone(),
            backend: self.backend,
            inventory: self.inventory.twin(),
            native: copy_opt(&self.native),
        }
    }
}

/// One observation of the managed table.
#[derive(Debug, Clone, PartialEq, Eq)]
pub struct CollectedNftablesObservation {
    managed_listing: Option<String>,
}

#[verifier::ext_equal]
pub struct CollectedNftablesObservationView {
    pub managed_listing: Option<Seq<char>>,
}

impl View for CollectedNftablesObservation {
    type V = CollectedNftablesObservationView;

    closed spec fn view(&self) -> CollectedNftablesObservationView {
        CollectedNftablesObservationView {
            managed_listing: opt(self.managed_listing),
        }
    }
}

impl Item for CollectedNftablesObservation {
    fn alike(&self, other: &Self) -> (r: bool) {
        same_opt(&self.managed_listing, &other.managed_listing)
    }

    fn twin(&self) -> (r: Self) {
        CollectedNftablesObservation {
            managed_listing: copy_opt(&self.managed_listing),
        }
    }
}

/// One paired observation of both families.
#[derive(Debug, Clone, PartialEq, Eq)]
pub struct CollectedIptablesObservation {
    ipv4_save: String,
    ipv6_save: String,
}

#[verifier::ext_equal]
pub struct CollectedIptablesObservationView {
    pub ipv4_save: Seq<char>,
    pub ipv6_save: Seq<char>,
}

impl View for CollectedIptablesObservation {
    type V = CollectedIptablesObservationView;

    closed spec fn view(&self) -> CollectedIptablesObservationView {
        CollectedIptablesObservationView {
            ipv4_save: self.ipv4_save@,
            ipv6_save: self.ipv6_save@,
        }
    }
}

impl Item for CollectedIptablesObservation {
    fn alike(&self, other: &Self) -> (r: bool) {
        same(self.ipv4_save.as_str(), other.ipv4_save.as_str())
            && same(self.ipv6_save.as_str(), other.ipv6_save.as_str())
    }

    fn twin(&self) -> (r: Self) {
        CollectedIptablesObservation {
            ipv4_save: self.ipv4_save.clone(),
            ipv6_save: self.ipv6_save.clone(),
        }
    }
}

impl GenericFirewallInventorySnapshot {
    pub fn inventory(&self) -> (r: &FirewallInventory)
        ensures
            r@ == self@.inventory,
    {
        &self.inventory
    }

    pub fn backend(&self) -> (r: GenericFirewallBackend)
        ensures
            r == self@.backend,
    {
        self.backend
    }

    pub fn boot_id(&self) -> (r: &str)
        ensures
            r@ == self@.boot_id,
    {
        self.boot_id.as_str()
    }
}

impl CollectedIptablesObservation {
    pub fn ipv4_save(&self) -> (r: &str)
        ensures
            r@ == self@.ipv4_save,
    {
        self.ipv4_save.as_str()
    }

    pub fn ipv6_save(&self) -> (r: &str)
        ensures
            r@ == self@.ipv6_save,
    {
        self.ipv6_save.as_str()
    }
}

impl CollectedNftablesObservation {
    pub fn managed_listing(&self) -> (r: Option<&str>)
        ensures
            text_view(r) == self@.managed_listing,
    {
        match &self.managed_listing {
            Some(s) => Some(s.as_str()),
            None => None,
        }
    }
}

/// The error of a rule set that could not be read.
pub open spec fn nft_error<T>(e: NftablesRenderErrorView) -> Result<T, GenericFirewallStateErrorView> {
    Err(GenericFirewallStateErrorView::Nftables(e))
}

pub open spec fn iptables_error<T>(e: IptablesRenderErrorView) -> Result<
    T,
    GenericFirewallStateErrorView,
> {
    Err(GenericFirewallStateErrorView::Iptables(e))
}

/// The text that a command printed.
pub open spec fn printed(reply: Result<FirewallCommandOutputView, FirewallCommandErrorView>) -> Result<
    Seq<char>,
    GenericFirewallStateErrorView,
> {
    match reply {
        Err(_) => Err(GenericFirewallStateErrorView::NativeInspection),
        Ok(o) => match utf8_value(o.stdout) {
            Some(s) => Ok(s),
            None => Err(GenericFirewallStateErrorView::NativeInspection),
        },
    }
}

/// Reads the text that a command printed.
pub fn printed_text(reply: Result<FirewallCommandOutput, FirewallCommandError>) -> (r: Result<
    String,
    GenericFirewallStateError,
>)
    ensures
        vres(r) == printed(vres(reply)),
{
    match reply {
        Err(_) => Err(GenericFirewallStateError::NativeInspection),
        Ok(o) => {
            proof {
                lemma_bytes(o.stdout@);
            }
            match utf8_text(o.stdout) {
                Some(s) => Ok(s),
                None => Err(GenericFirewallStateError::NativeInspection),
            }
        },
    }
}

/// The observation of both families.
pub open spec fn iptables_observed(
    ipv4: Result<FirewallCommandOutputView, FirewallCommandErrorView>,
    ipv6: Result<FirewallCommandOutputView, FirewallCommandErrorView>,
) -> Result<CollectedIptablesObservationView, GenericFirewallStateErrorView> {
    match (printed(ipv4), printed(ipv6)) {
        (Ok(a), Ok(b)) => Ok(CollectedIptablesObservationView { ipv4_save: a, ipv6_save: b }),
        _ => Err(GenericFirewallStateErrorView::NativeInspection),
    }
}

/// Pairs what both save commands printed.
pub fn iptables_observation(
    ipv4: Result<FirewallCommandOutput, FirewallCommandError>,
    ipv6: Result<FirewallCommandOutput, FirewallCommandError>,
) -> (r: Result<CollectedIptablesObservation, GenericFirewallStateError>)
    ensures
        vres(r) == iptables_observed(vres(ipv4), vres(ipv6)),
{
    match (printed_text(ipv4), printed_text(ipv6)) {
        (Ok(ipv4_save), Ok(ipv6_save)) => Ok(
            CollectedIptablesObservation { ipv4_save, ipv6_save },
        ),
        _ => Err(GenericFirewallStateError::NativeInspection),
    }
}

/// Whether a result is the observation that some replies of an executor to the two save commands make.
pub open spec fn collected_from<E: FirewallCommandExecutor>(
    executor: &E,
    r: Result<CollectedIptablesObservationView, GenericFirewallStateErrorView>,
) -> bool {
    exists|a: Result<FirewallCommandOutput, FirewallCommandError>|
        call_ensures(
            E::execute,
            (executor, &FirewallCommand::IptablesSave { ipv6: false }, None),
            a,
        ) && (#[trigger] vres(a) is Err && r == Err::<
            CollectedIptablesObservationView,
            GenericFirewallStateErrorView,
        >(GenericFirewallStateErrorView::NativeInspection) || exists|
            b: Result<FirewallCommandOutput, FirewallCommandError>,
        |
            call_ensures(
                E::execute,
                (executor, &FirewallCommand::IptablesSave { ipv6: true }, None),
                b,
            ) && r == iptables_observed(vres(a), #[trigger] vres(b)))
}

/// Collects both families as one observation.
pub fn collect_iptables_observation<E: FirewallCommandExecutor>(executor: &E) -> (r: Result<
    CollectedIptablesObservation,
    GenericFirewallStateError,
>)
    ensures
        collected_from(executor, vres(r)),
{
    let ipv4 = executor.execute(&FirewallCommand::IptablesSave { ipv6: false }, None);
    let ghost a = ipv4;
    assert(call_ensures(
        E::execute,
        (executor, &FirewallCommand::IptablesSave { ipv6: false }, None),
        a,
    ));
    if ipv4.is_err() {
        assert(vres(a) is Err);
        return Err(GenericFirewallStateError::NativeInspection);
    }
    let ipv6 = executor.execute(&FirewallCommand::IptablesSave { ipv6: true }, None);
    let ghost b = ipv6;
    let r = iptables_observation(ipv4, ipv6);
    assert(vres(r) == iptables_observed(vres(a), vres(b)));
    r
}

/// The observation of the managed table, given whether the table is among those that were listed and, where it
/// is, what its own listing printed.
pub open spec fn nftables_observed(
    managed: Result<bool, NftablesRenderErrorView>,
    listing: Option<Result<FirewallCommandOutputView, FirewallCommandErrorView>>,
) -> Result<CollectedNftablesObservationView, GenericFirewallStateErrorView> {
    match managed {
        Err(e) => nft_error(e),
        Ok(false) => Ok(CollectedNftablesObservationView { managed_listing: None }),
        Ok(true) => match listing {
            None => Err(GenericFirewallStateErrorView::NativeInspection),
            Some(reply) => match printed(reply) {
                Err(e) => Err(e),
                Ok(s) => Ok(CollectedNftablesObservationView { managed_listing: Some(s) }),
            },
        },
    }
}

/// The view of an optional reply.
pub open spec fn reply_view(o: Option<Result<FirewallCommandOutput, FirewallCommandError>>) -> Option<
    Result<FirewallCommandOutputView, FirewallCommandErrorView>,
> {
    match o {
        Some(r) => Some(vres(r)),
        None => None,
    }
}

/// Makes an observation of the managed table.
pub fn nftables_observation(
    managed: Result<bool, NftablesRenderError>,
    listing: Option<Result<FirewallCommandOutput, FirewallCommandError>>,
) -> (r: Result<CollectedNftablesObservation, GenericFirewallStateError>)
    ensures
        vres(r) == nftables_observed(managed_view(managed), reply_view(listing)),
{
    match managed {
        Err(e) => Err(GenericFirewallStateError::Nftables(e)),
        Ok(false) => Ok(CollectedNftablesObservation { managed_listing: None }),
        Ok(true) => match listing {
            None => Err(GenericFirewallStateError::NativeInspection),
            Some(reply) => match printed_text(reply) {
                Err(e) => Err(e),
                Ok(s) => Ok(CollectedNftablesObservation { managed_listing: Some(s) }),
            },
        },
    }
}

/// The view of a finding on the managed table.
pub open spec fn managed_view(r: Result<bool, NftablesRenderError>) -> Result<
    bool,
    NftablesRenderErrorView,
> {
    match r {
        Ok(b) => Ok(b),
        Err(e) => Err(e@),
    }
}

/// Lists the tables.
pub fn collect_nftables_tables<E: FirewallCommandExecutor>(executor: &E) -> (r: Result<
    String,
    GenericFirewallStateError,
>)
    ensures
        exists|a: Result<FirewallCommandOutput, FirewallCommandError>|
            call_ensures(E::execute, (executor, &FirewallCommand::NftListTables, None), a) && vres(r)
                == printed(#[trigger] vres(a)),
{
    let reply = executor.execute(&FirewallCommand::NftListTables, None);
    let ghost a = reply;
    let r = printed_text(reply);
    assert(vres(r) == printed(vres(a)));
    r
}

/// Collects the listing of the managed table, given whether it is among the tables.
pub fn collect_nftables_observation<E: FirewallCommandExecutor>(
    executor: &E,
    managed: Result<bool, NftablesRenderError>,
) -> (r: Result<CollectedNftablesObservation, GenericFirewallStateError>)
    ensures
        managed_view(managed) != Ok::<bool, NftablesRenderErrorView>(true) ==> vres(r)
            == nftables_observed(managed_view(managed), None),
        managed_view(managed) == Ok::<bool, NftablesRenderErrorView>(true) ==> exists|
            a: Result<FirewallCommandOutput, FirewallCommandError>,
        |
            call_ensures(E::execute, (executor, &FirewallCommand::NftListManagedTable, None), a)
                && vres(r) == nftables_observed(managed_view(managed), Some(#[trigger] vres(a))),
{
    match managed {
        Ok(true) => {
            let reply = executor.execute(&FirewallCommand::NftListManagedTable, None);
            let ghost a = reply;
            let r = nftables_observation(managed, Some(reply));
            assert(vres(r) == nftables_observed(managed_view(managed), Some(vres(a))));
            r
        },
        other => nftables_observation(other, None),
    }
}

/// Whether a boot identity is usable: not empty, bounded, of letters, digits, hyphens and underscores.
pub open spec fn is_boot_name(s: Seq<char>) -> bool {
    0 < s.len() && byte_len(s) <= MAX_BOOT_ID_BYTES && forall|i: int|
        0 <= i < s.len() ==> is_boot_char(#[trigger] s[i])
}

pub open spec fn is_boot_char(c: char) -> bool {
    is_alnum(c) || c == '-' || c == '_'
}

pub fn boot_name(s: &str) -> (r: bool)
    ensures
        r == is_boot_name(s@),
{
    let cs = chars_of(s);
    if cs.len() == 0 || byte_length(s) > MAX_BOOT_ID_BYTES {
        return false;
    }
    let mut i: usize = 0;
    while i < cs.len()
        invariant
            i <= cs@.len(),
            cs@ == s@,
            0 < s@.len(),
            byte_len(s@) <= MAX_BOOT_ID_BYTES,
            forall|j: int| 0 <= j < i ==> is_boot_char(#[trigger] s@[j]),
        decreases cs@.len() - i,
    {
        if !(alnum(cs[i]) || cs[i] == '-' || cs[i] == '_') {
            assert(!is_boot_char(s@[i as int]));
            return false;
        }
        i = i + 1;
    }
    true
}

/// What identifies the native state of an observation: nothing where the agent owns none.
pub open spec fn fingerprint(
    backend: GenericFirewallBackend,
    observation: GenericFirewallObservationView,
    digests: OwnedDigestsView,
) -> Result<Option<NativeFingerprintView>, GenericFirewallStateErrorView> {
    match (backend, observation) {
        (
            GenericFirewallBackend::Nftables,
            GenericFirewallObservationView::Nftables(listing),
        ) => match table_state(listing) {
            Err(e) => nft_error(e),
            Ok(NftablesTableState::Absent) => Ok(None),
            Ok(NftablesTableState::AgentOwned) => if listing is None {
                Err(GenericFirewallStateErrorView::NativeStateMissing)
            } else {
                match digests.nftables {
                    Err(e) => nft_error(e),
                    Ok(digest) => Ok(Some(NativeFingerprintView::Nftables { digest })),
                }
            },
        },
        (
            GenericFirewallBackend::Iptables,
            GenericFirewallObservationView::Iptables { ipv4_save, ipv6_save },
        ) => match family_state(ipv4_save) {
            Err(e) => iptables_error(e),
            Ok(ipv4) => match family_state(ipv6_save) {
                Err(e) => iptables_error(e),
                Ok(ipv6) => match (ipv4, ipv6) {
                    (IptablesFamilyState::Absent, IptablesFamilyState::Absent) => Ok(None),
                    (
                        IptablesFamilyState::AgentOwned,
                        IptablesFamilyState::AgentOwned,
                    ) => match digests.ipv4 {
                        Err(e) => iptables_error(e),
                        Ok(a) => match digests.ipv6 {
                            Err(e) => iptables_error(e),
                            Ok(b) => Ok(
                                Some(
                                    NativeFingerprintView::Iptables {
                                        ipv4_digest: a,
                                        ipv6_digest: b,
                                    },
                                ),
                            ),
                        },
                    },
                    _ => Err(GenericFirewallStateErrorView::PartialFamilyState),
                },
            },
        },
        _ => Err(GenericFirewallStateErrorView::BackendMismatch),
    }
}

/// The view of a result that may hold a fingerprint.
pub open spec fn native_view(
    r: Result<Option<NativeFingerprint>, GenericFirewallStateError>,
) -> Result<Option<NativeFingerprintView>, GenericFirewallStateErrorView> {
    match r {
        Ok(o) => Ok(opt(o)),
        Err(e) => Err(e@),
    }
}

fn copy_nft_error(e: &NftablesRenderError) -> (r: NftablesRenderError)
    ensures
        r@ == e@,
{
    match e {
        NftablesRenderError::MalformedInspection => NftablesRenderError::MalformedInspection,
        NftablesRenderError::ForeignTable => NftablesRenderError::ForeignTable,
        NftablesRenderError::Capacity => NftablesRenderError::Capacity,
        NftablesRenderError::Ownership => NftablesRenderError::Ownership,
        NftablesRenderError::PlanMismatch => NftablesRenderError::PlanMismatch,
        NftablesRenderError::InvalidObject => NftablesRenderError::InvalidObject,
        NftablesRenderError::MissingReference => NftablesRenderError::MissingReference,
        NftablesRenderError::NameCollision => NftablesRenderError::NameCollision,
        NftablesRenderError::UnsupportedField(s) => NftablesRenderError::UnsupportedField(s),
        NftablesRenderError::UnsafeValue => NftablesRenderError::UnsafeValue,
        NftablesRenderError::Output => NftablesRenderError::Output,
    }
}

fn copy_iptables_error(e: &IptablesRenderError) -> (r: IptablesRenderError)
    ensures
        r@ == e@,
{
    match e {
        IptablesRenderError::MalformedInspection => IptablesRenderError::MalformedInspection,
        IptablesRenderError::ForeignChains => IptablesRenderError::ForeignChains,
        IptablesRenderError::Capacity => IptablesRenderError::Capacity,
        IptablesRenderError::Ownership => IptablesRenderError::Ownership,
        IptablesRenderError::PlanMismatch => IptablesRenderError::PlanMismatch,
        IptablesRenderError::InvalidObject => IptablesRenderError::InvalidObject,
        IptablesRenderError::MissingReference => IptablesRenderError::MissingReference,
        IptablesRenderError::UnsupportedField(s) => IptablesRenderError::UnsupportedField(s),
        IptablesRenderError::UnsafeValue => IptablesRenderError::UnsafeValue,
        IptablesRenderError::Output => IptablesRenderError::Output,
    }
}

fn inspect_nft(listing: Option<&str>, digests: &OwnedDigests) -> (r: Result<
    Option<NativeFingerprint>,
    GenericFirewallStateError,
>)
    ensures
        native_view(r) == fingerprint(
            GenericFirewallBackend::Nftables,
            GenericFirewallObservationView::Nftables(text_view(listing)),
            digests@,
        ),
{
    match inspect_nftables_table_state(listing) {
        Err(e) => Err(GenericFirewallStateError::Nftables(e)),
        Ok(NftablesTableState::Absent) => Ok(None),
        Ok(NftablesTableState::AgentOwned) => {
            if listing.is_none() {
                return Err(GenericFirewallStateError::NativeStateMissing);
            }
            match &digests.nftables {
                Err(e) => Err(GenericFirewallStateError::Nftables(copy_nft_error(e))),
                Ok(d) => Ok(Some(NativeFingerprint::Nftables { digest: d.clone() })),
            }
        },
    }
}

fn inspect_families(ipv4_save: &str, ipv6_save: &str, digests: &OwnedDigests) -> (r: Result<
    Option<NativeFingerprint>,
    GenericFirewallStateError,
>)
    ensures
        native_view(r) == fingerprint(
            GenericFirewallBackend::Iptables,
            GenericFirewallObservationView::Iptables { ipv4_save: ipv4_save@, ipv6_save: ipv6_save@ },
            digests@,
        ),
{
    let ipv4 = match inspect_iptables_family_state(ipv4_save) {
        Err(e) => {
            return Err(GenericFirewallStateError::Iptables(e));
        },
        Ok(s) => s,
    };
    let ipv6 = match inspect_iptables_family_state(ipv6_save) {
        Err(e) => {
            return Err(GenericFirewallStateError::Iptables(e));
        },
        Ok(s) => s,
    };
    match (ipv4, ipv6) {
        (IptablesFamilyState::Absent, IptablesFamilyState::Absent) => Ok(None),
        (IptablesFamilyState::AgentOwned, IptablesFamilyState::AgentOwned) => match (
            &digests.ipv4,
            &digests.ipv6,
        ) {
            (Err(e), _) => Err(GenericFirewallStateError::Iptables(copy_iptables_error(e))),
            (_, Err(e)) => Err(GenericFirewallStateError::Iptables(copy_iptables_error(e))),
            (Ok(a), Ok(b)) => Ok(
                Some(
                    NativeFingerprint::Iptables { ipv4_digest: a.clone(), ipv6_digest: b.clone() },
                ),
            ),
        },
        _ => Err(GenericFirewallStateError::PartialFamilyState),
    }
}

fn inspect_native(
    backend: GenericFirewallBackend,
    observation: GenericFirewallObservation<'_>,
    digests: &OwnedDigests,
) -> (r: Result<Option<NativeFingerprint>, GenericFirewallStateError>)
    ensures
        native_view(r) == fingerprint(backend, observation@, digests@),
{
    match (backend, observation) {
        (
            GenericFirewallBackend::Nftables,
            GenericFirewallObservation::Nftables(listing),
        ) => inspect_nft(listing, digests),
        (
            GenericFirewallBackend::Iptables,
            GenericFirewallObservation::Iptables { ipv4_save, ipv6_save },
        ) => inspect_families(ipv4_save, ipv6_save, digests),
        _ => Err(GenericFirewallStateError::BackendMismatch),
    }
}

/// Whether a recorded inventory is sound: each object valid and the agent's, no two of the same kind and
/// identity.
pub open spec fn is_owned_inventory(objects: Seq<FirewallObjectView>, valid: Seq<bool>) -> bool {
    (forall|i: int|
        0 <= i < objects.len() ==> verdict_at(valid, i) && (#[trigger] objects[i]).ownership()
            == ObjectOwnership::AgentOwned) && identities_differ(objects)
}

pub open spec fn identities_differ(objects: Seq<FirewallObjectView>) -> bool {
    forall|i: int, j: int|
        0 <= i < j < objects.len() ==> !((#[trigger] objects[i]).kind() == (
        #[trigger] objects[j]).kind() && objects[i].id() == objects[j].id())
}

fn distinct_identities(objects: &Vec<FirewallObject>) -> (r: bool)
    ensures
        r == identities_differ(views(objects@)),
{
    let ghost all = views(objects@);
    let mut j: usize = 0;
    while j < objects.len()
        invariant
            j <= objects@.len(),
            all == views(objects@),
            forall|a: int, b: int|
                0 <= a < b < j ==> !((#[trigger] all[a]).kind() == (#[trigger] all[b]).kind()
                    && all[a].id() == all[b].id()),
        decreases objects@.len() - j,
    {
        assert(all[j as int] == objects@[j as int]@);
        let mut i: usize = 0;
        while i < j
            invariant
                i <= j < objects@.len(),
                all == views(objects@),
                forall|a: int|
                    0 <= a < i ==> !((#[trigger] all[a]).kind() == all[j as int].kind() && all[a].id()
                        == all[j as int].id()),
            decreases j - i,
        {
            assert(all[i as int] == objects@[i as int]@);
            assert(all[j as int] == objects@[j as int]@);
            if same(objects[i].kind(), objects[j].kind()) && same(objects[i].id(), objects[j].id()) {
                return false;
            }
            i = i + 1;
        }
        j = j + 1;
    }
    true
}

fn validate_inventory(inventory: &FirewallInventory, valid: &[bool]) -> (r: Result<
    (),
    GenericFirewallStateError,
>)
    ensures
        match r {
            Ok(()) => inventory@.objects.len() <= MAX_OBJECTS && is_owned_inventory(
                inventory@.objects,
                valid@,
            ),
            Err(e) => e@ == (if inventory@.objects.len() > MAX_OBJECTS {
                GenericFirewallStateErrorView::Capacity
            } else {
                GenericFirewallStateErrorView::CorruptState
            }) && (inventory@.objects.len() > MAX_OBJECTS || !is_owned_inventory(
                inventory@.objects,
                valid@,
            )),
        },
{
    if inventory.objects.len() > MAX_OBJECTS {
        return Err(GenericFirewallStateError::Capacity);
    }
    let ghost all = inventory@.objects;
    let mut i: usize = 0;
    while i < inventory.objects.len()
        invariant
            i <= inventory.objects@.len() <= MAX_OBJECTS,
            all == views(inventory.objects@),
            all == inventory@.objects,
            forall|j: int|
                0 <= j < i ==> verdict_at(valid@, j) && (#[trigger] all[j]).ownership()
                    == ObjectOwnership::AgentOwned,
        decreases inventory.objects@.len() - i,
    {
        assert(all[i as int] == inventory.objects@[i as int]@);
        if !(i < valid.len() && valid[i]) || inventory.objects[i].ownership()
            != ObjectOwnership::AgentOwned {
            assert(!(verdict_at(valid@, i as int) && all[i as int].ownership()
                == ObjectOwnership::AgentOwned));
            return Err(GenericFirewallStateError::CorruptState);
        }
        i = i + 1;
    }
    if distinct_identities(&inventory.objects) {
        Ok(())
    } else {
        Err(GenericFirewallStateError::CorruptState)
    }
}

/// The snapshot that a record and native state come to.
///
/// Without a record there must be no native state of the agent; with one, the record must be of this
/// boot and backend, sound, and the native state must be the recorded one.
pub open spec fn reconciled(
    record: Option<FirewallCanonicalRecordView>,
    boot_id: Seq<char>,
    backend: GenericFirewallBackend,
    native: Option<NativeFingerprintView>,
) -> Result<GenericFirewallInventorySnapshotView, GenericFirewallStateErrorView> {
    match record {
        None => if native is Some {
            Err(GenericFirewallStateErrorView::OrphanedNativeState)
        } else {
            Ok(
                GenericFirewallInventorySnapshotView {
                    boot_id,
                    backend,
                    inventory: FirewallInventoryView { objects: Seq::empty() },
                    native: None,
                },
            )
        },
        Some(rec) => if rec.encoded_bytes > MAX_CANONICAL_STATE_BYTES {
            Err(GenericFirewallStateErrorView::Capacity)
        } else {
            match rec.state {
                None => Err(GenericFirewallStateErrorView::CorruptState),
                Some(s) => if s.schema_version != SCHEMA_VERSION || s.boot_id != boot_id || s.backend
                    != backend {
                    Err(GenericFirewallStateErrorView::StaleState)
                } else if s.inventory.objects.len() > MAX_OBJECTS {
                    Err(GenericFirewallStateErrorView::Capacity)
                } else if !is_owned_inventory(s.inventory.objects, rec.valid) {
                    Err(GenericFirewallStateErrorView::CorruptState)
                } else if native != Some(s.native) {
                    Err(GenericFirewallStateErrorView::NativeDrift)
                } else {
                    Ok(
                        GenericFirewallInventorySnapshotView {
                            boot_id,
                            backend,
                            inventory: s.inventory,
                            native,
                        },
                    )
                },
            }
        },
    }
}

/// The snapshot that an observation comes to.
pub open spec fn generic_snapshot(
    record: Option<FirewallCanonicalRecordView>,
    boot_id: Seq<char>,
    backend: GenericFirewallBackend,
    observation: GenericFirewallObservationView,
    digests: OwnedDigestsView,
) -> Result<GenericFirewallInventorySnapshotView, GenericFirewallStateErrorView> {
    if !is_boot_name(boot_id) {
        Err(GenericFirewallStateErrorView::InvalidBootId)
    } else {
        match fingerprint(backend, observation, digests) {
            Err(e) => Err(e),
            Ok(native) => reconciled(record, boot_id, backend, native),
        }
    }
}

/// The view of an optional reference to a record.
pub open spec fn record_view(o: Option<&FirewallCanonicalRecord>) -> Option<
    FirewallCanonicalRecordView,
> {
    match o {
        Some(r) => Some(r@),
        None => None,
    }
}

/// Reconciles a record with a fresh native observation.
///
/// The first use is allowed only where neither a record nor native state of the agent is there.
/// Native state without its record is never adopted. The digests are those of the native state
/// that the agent owns in the observation.
pub fn inspect_generic_firewall_inventory(
    record: Option<&FirewallCanonicalRecord>,
    boot_id: &str,
    backend: GenericFirewallBackend,
    observation: GenericFirewallObservation<'_>,
    digests: &OwnedDigests,
) -> (r: Result<GenericFirewallInventorySnapshot, GenericFirewallStateError>)
    ensures
        vres(r) == generic_snapshot(
            record_view(record),
            boot_id@,
            backend,
            observation@,
            digests@,
        ),
{
    if !boot_name(boot_id) {
        return Err(GenericFirewallStateError::InvalidBootId);
    }
    let native = match inspect_native(backend, observation, digests) {
        Ok(n) => n,
        Err(e) => {
            return Err(e);
        },
    };
    let rec = match record {
        None => {
            if native.is_some() {
                return Err(GenericFirewallStateError::OrphanedNativeState);
            }
            return Ok(
                GenericFirewallInventorySnapshot {
                    boot_id: boot_id.to_owned(),
                    backend,
                    inventory: FirewallInventory { objects: Vec::new() },
                    native: None,
                },
            );
        },
        Some(rec) => rec,
    };
    if rec.encoded_bytes > MAX_CANONICAL_STATE_BYTES {
        return Err(GenericFirewallStateError::Capacity);
    }
    let state = match &rec.state {
        None => {
            return Err(GenericFirewallStateError::CorruptState);
        },
        Some(s) => s,
    };
    if state.schema_version != SCHEMA_VERSION || !same(state.boot_id.as_str(), boot_id)
        || state.backend != backend {
        return Err(GenericFirewallStateError::StaleState);
    }
    proof {
        lemma_verdicts(rec.valid@);
    }
    match validate_inventory(&state.inventory, rec.valid.as_slice()) {
        Ok(()) => {},
        Err(e) => {
            return Err(e);
        },
    }
    let known = match &native {
        Some(n) => n.alike(&state.native),
        None => false,
    };
    if !known {
        return Err(GenericFirewallStateError::NativeDrift);
    }
    Ok(
        GenericFirewallInventorySnapshot {
            boot_id: state.boot_id.clone(),
            backend,
            inventory: state.inventory.twin(),
            native,
        },
    )
}

/// Reconciles a paired observation that was collected already.
pub fn reconcile_iptables_observation(
    record: Option<&FirewallCanonicalRecord>,
    boot_id: &str,
    observation: &CollectedIptablesObservation,
    digests: &OwnedDigests,
) -> (r: Result<GenericFirewallInventorySnapshot, GenericFirewallStateError>)
    ensures
        vres(r) == generic_snapshot(
            record_view(record),
            boot_id@,
            GenericFirewallBackend::Iptables,
            iptables_input(observation@),
            digests@,
        ),
{
    inspect_generic_firewall_inventory(
        record,
        boot_id,
        GenericFirewallBackend::Iptables,
        GenericFirewallObservation::Iptables {
            ipv4_save: observation.ipv4_save(),
            ipv6_save: observation.ipv6_save(),
        },
        digests,
    )
}

/// A paired observation, as the input of a reconciliation.
pub open spec fn iptables_input(o: CollectedIptablesObservationView) -> GenericFirewallObservationView {
    GenericFirewallObservationView::Iptables { ipv4_save: o.ipv4_save, ipv6_save: o.ipv6_save }
}

/// An observation of the managed table, as the input of a reconciliation.
pub open spec fn nftables_input(o: CollectedNftablesObservationView) -> GenericFirewallObservationView {
    GenericFirewallObservationView::Nftables(o.managed_listing)
}

/// Reconciles an observation of the managed table that was collected already.
pub fn reconcile_nftables_observation(
    record: Option<&FirewallCanonicalRecord>,
    boot_id: &str,
    observation: &CollectedNftablesObservation,
    digests: &OwnedDigests,
) -> (r: Result<GenericFirewallInventorySnapshot, GenericFirewallStateError>)
    ensures
        vres(r) == generic_snapshot(
            record_view(record),
            boot_id@,
            GenericFirewallBackend::Nftables,
            nftables_input(observation@),
            digests@,
        ),
{
    inspect_generic_firewall_inventory(
        record,
        boot_id,
        GenericFirewallBackend::Nftables,
        GenericFirewallObservation::Nftables(observation.managed_listing()),
        digests,
    )
}

pub open spec fn projection_error(e: FirewallProjectionError) -> GenericFirewallStateErrorView {
    match e {
        FirewallProjectionError::InvalidObject => GenericFirewallStateErrorView::CorruptState,
        FirewallProjectionError::Ownership => GenericFirewallStateErrorView::Ownership,
        FirewallProjectionError::PlanMismatch => GenericFirewallStateErrorView::PlanMismatch,
    }
}

fn map_projection_error(e: FirewallProjectionError) -> (r: GenericFirewallStateError)
    ensures
        r@ == projection_error(e),
{
    match e {
        FirewallProjectionError::InvalidObject => GenericFirewallStateError::CorruptState,
        FirewallProjectionError::Ownership => GenericFirewallStateError::Ownership,
        FirewallProjectionError::PlanMismatch => GenericFirewallStateError::PlanMismatch,
    }
}

/// The state to record once a plan was applied, given the observation after it.
pub open spec fn applied_state(
    snapshot: GenericFirewallInventorySnapshotView,
    valid: Seq<bool>,
    changes: Seq<FirewallPlannedChangeView>,
    boot_id: Seq<char>,
    observation: GenericFirewallObservationView,
    digests: OwnedDigestsView,
) -> Result<CanonicalStateView, GenericFirewallStateErrorView> {
    if !is_boot_name(boot_id) {
        Err(GenericFirewallStateErrorView::InvalidBootId)
    } else if snapshot.boot_id != boot_id {
        Err(GenericFirewallStateErrorView::StaleState)
    } else {
        match fingerprint(snapshot.backend, observation, digests) {
            Err(e) => Err(e),
            Ok(None) => Err(GenericFirewallStateErrorView::NativeStateMissing),
            Ok(Some(native)) => match projected(snapshot.inventory.objects, valid, changes) {
                Err(e) => Err(projection_error(e)),
                Ok(objects) => Ok(
                    CanonicalStateView {
                        schema_version: SCHEMA_VERSION,
                        boot_id,
                        backend: snapshot.backend,
                        inventory: FirewallInventoryView { objects },
                        native,
                    },
                ),
            },
        }
    }
}

/// Makes the state to record from the inventory that a plan projects and the native state after it.
///
/// The verdicts say of each object of the snapshot whether the object model accepts it.
pub fn encode_applied_generic_firewall_state(
    snapshot: &GenericFirewallInventorySnapshot,
    valid: &[bool],
    plan: &FirewallMutationPlan,
    boot_id: &str,
    post_observation: GenericFirewallObservation<'_>,
    digests: &OwnedDigests,
) -> (r: Result<CanonicalState, GenericFirewallStateError>)
    ensures
        vres(r) == applied_state(
            snapshot@,
            valid@,
            plan@.changes,
            boot_id@,
            post_observation@,
            digests@,
        ),
{
    if !boot_name(boot_id) {
        return Err(GenericFirewallStateError::InvalidBootId);
    }
    if !same(snapshot.boot_id.as_str(), boot_id) {
        return Err(GenericFirewallStateError::StaleState);
    }
    let native = match inspect_native(snapshot.backend, post_observation, digests) {
        Err(e) => {
            return Err(e);
        },
        Ok(None) => {
            return Err(GenericFirewallStateError::NativeStateMissing);
        },
        Ok(Some(n)) => n,
    };
    match project_agent_objects(&snapshot.inventory, valid, plan) {
        Err(e) => Err(map_projection_error(e)),
        Ok(objects) => Ok(
            CanonicalState {
                schema_version: SCHEMA_VERSION,
                boot_id: boot_id.to_owned(),
                backend: snapshot.backend,
                inventory: FirewallInventory { objects },
                native,
            },
        ),
    }
}

/// The encoding of a state, where there is one that fits.
pub open spec fn bounded_encoding(encoded: Option<Seq<u8>>) -> Result<
    Seq<u8>,
    GenericFirewallStateErrorView,
> {
    match encoded {
        None => Err(GenericFirewallStateErrorView::CorruptState),
        Some(b) => if b.len() > MAX_CANONICAL_STATE_BYTES {
            Err(GenericFirewallStateErrorView::Capacity)
        } else {
            Ok(b)
        },
    }
}

/// Takes the encoding of a state, where there is one that fits.
pub fn bound_encoding(encoded: Option<Vec<u8>>) -> (r: Result<Vec<u8>, GenericFirewallStateError>)
    ensures
        vres(r) == bounded_encoding(opt(encoded)),
{
    match encoded {
        None => Err(GenericFirewallStateError::CorruptState),
        Some(b) => if b.len() > MAX_CANONICAL_STATE_BYTES {
            Err(GenericFirewallStateError::Capacity)
        } else {
            Ok(b)
        },
    }
}

/// The stage of the managed table from a snapshot.
pub open spec fn nftables_from_snapshot(
    snapshot: GenericFirewallInventorySnapshotView,
    valid: Seq<bool>,
    changes: Seq<FirewallPlannedChangeView>,
) -> Result<NftablesFirewallStageView, GenericFirewallStateErrorView> {
    if snapshot.backend != GenericFirewallBackend::Nftables {
        Err(GenericFirewallStateErrorView::BackendMismatch)
    } else {
        match nftables_stage(
            snapshot.inventory.objects,
            valid,
            changes,
            if snapshot.native is Some {
                NftablesTableState::AgentOwned
            } else {
                NftablesTableState::Absent
            },
        ) {
            Ok(s) => Ok(s),
            Err(e) => nft_error(e),
        }
    }
}

/// Renders the managed table from a reconciled snapshot.
pub fn render_nftables_stage_from_snapshot(
    snapshot: &GenericFirewallInventorySnapshot,
    valid: &[bool],
    plan: &FirewallMutationPlan,
) -> (r: Result<NftablesFirewallStage, GenericFirewallStateError>)
    ensures
        vres(r) == nftables_from_snapshot(snapshot@, valid@, plan@.changes),
{
    if snapshot.backend != GenericFirewallBackend::Nftables {
        return Err(GenericFirewallStateError::BackendMismatch);
    }
    let state = if snapshot.native.is_some() {
        NftablesTableState::AgentOwned
    } else {
        NftablesTableState::Absent
    };
    match render_nftables_firewall_stage(&snapshot.inventory, valid, plan, state) {
        Ok(s) => Ok(s),
        Err(e) => Err(GenericFirewallStateError::Nftables(e)),
    }
}

/// The stages of both families from a snapshot.
pub open spec fn iptables_from_snapshot(
    snapshot: GenericFirewallInventorySnapshotView,
    valid: Seq<bool>,
    changes: Seq<FirewallPlannedChangeView>,
) -> Result<IptablesFirewallStageView, GenericFirewallStateErrorView> {
    let state = if snapshot.native is Some {
        IptablesFamilyState::AgentOwned
    } else {
        IptablesFamilyState::Absent
    };
    if snapshot.backend != GenericFirewallBackend::Iptables {
        Err(GenericFirewallStateErrorView::BackendMismatch)
    } else {
        match iptables_stage(snapshot.inventory.objects, valid, changes, state, state) {
            Ok(s) => Ok(s),
            Err(e) => iptables_error(e),
        }
    }
}

/// Renders both families from a reconciled snapshot.
pub fn render_iptables_stage_from_snapshot(
    snapshot: &GenericFirewallInventorySnapshot,
    valid: &[bool],
    plan: &FirewallMutationPlan,
) -> (r: Result<IptablesFirewallStage, GenericFirewallStateError>)
    ensures
        vres(r) == iptables_from_snapshot(snapshot@, valid@, plan@.changes),
{
    if snapshot.backend != GenericFirewallBackend::Iptables {
        return Err(GenericFirewallStateError::BackendMismatch);
    }
    let state = if snapshot.native.is_some() {
        IptablesFamilyState::AgentOwned
    } else {
        IptablesFamilyState::Absent
    };
    match render_iptables_firewall_stage(&snapshot.inventory, valid, plan, state, state) {
        Ok(s) => Ok(s),
        Err(e) => Err(GenericFirewallStateError::Iptables(e)),
    }
}

/// What was recorded after a plan was applied is what a later inspection finds, as long as the boot, the
/// backend and the native state stay the same, the record is read back as it was written, and the
/// object model still accepts its objects: the objects are those that the plan projects. In any other boot
/// the record is stale. Only a record of more objects than one may hold is refused.
pub proof fn law_applied_state_round_trips(
    snapshot: GenericFirewallInventorySnapshotView,
    valid: Seq<bool>,
    changes: Seq<FirewallPlannedChangeView>,
    boot_id: Seq<char>,
    observation: GenericFirewallObservationView,
    digests: OwnedDigestsView,
    record: FirewallCanonicalRecordView,
    other_boot: Seq<char>,
)
    requires
        record.encoded_bytes <= MAX_CANONICAL_STATE_BYTES,
        applied_state(snapshot, valid, changes, boot_id, observation, digests) is Ok,
        record.state == Some(
            applied_state(snapshot, valid, changes, boot_id, observation, digests)->Ok_0,
        ),
        record.state->Some_0.inventory.objects.len() <= MAX_OBJECTS,
        forall|i: int|
            0 <= i < record.state->Some_0.inventory.objects.len() ==> #[trigger] verdict_at(
                record.valid,
                i,
            ),
    ensures
        generic_snapshot(Some(record), boot_id, snapshot.backend, observation, digests) == Ok::<
            GenericFirewallInventorySnapshotView,
            GenericFirewallStateErrorView,
        >(
            GenericFirewallInventorySnapshotView {
                boot_id,
                backend: snapshot.backend,
                inventory: record.state->Some_0.inventory,
                native: Some(record.state->Some_0.native),
            },
        ),
        projected(snapshot.inventory.objects, valid, changes) == Ok::<
            Seq<FirewallObjectView>,
            FirewallProjectionError,
        >(record.state->Some_0.inventory.objects),
        is_boot_name(other_boot) && other_boot != boot_id ==> generic_snapshot(
            Some(record),
            other_boot,
            snapshot.backend,
            observation,
            digests,
        ) == Err::<GenericFirewallInventorySnapshotView, GenericFirewallStateErrorView>(
            GenericFirewallStateErrorView::StaleState,
        ),
{
    law_projection_is_listing(snapshot.inventory.objects, valid, changes);
    let objects = record.state->Some_0.inventory.objects;
    assert(is_listing(objects));
    assert(identities_differ(objects));
}

/// A record of one boot is refused in every other.
pub proof fn law_record_is_bound_to_its_boot(
    record: FirewallCanonicalRecordView,
    boot_id: Seq<char>,
    backend: GenericFirewallBackend,
    observation: GenericFirewallObservationView,
    digests: OwnedDigestsView,
)
    requires
        record.state is Some,
        record.state->Some_0.boot_id != boot_id,
    ensures
        generic_snapshot(Some(record), boot_id, backend, observation, digests) is Err,
{
}

/// Native state of the agent is never adopted without a record of it.
pub proof fn law_native_state_is_never_adopted(
    boot_id: Seq<char>,
    backend: GenericFirewallBackend,
    observation: GenericFirewallObservationView,
    digests: OwnedDigestsView,
)
    ensures
        match generic_snapshot(None, boot_id, backend, observation, digests) {
            Ok(s) => s.inventory.objects.len() == 0 && s.native is None && fingerprint(
                backend,
                observation,
                digests,
            ) == Ok::<Option<NativeFingerprintView>, GenericFirewallStateErrorView>(None),
            Err(_) => true,
        },
{
}

/// Copies an error.
pub fn copy_state_error(e: &GenericFirewallStateError) -> (r: GenericFirewallStateError)
    ensures
        r@ == e@,
{
    match e {
        GenericFirewallStateError::NativeInspection => GenericFirewallStateError::NativeInspection,
        GenericFirewallStateError::BackendMismatch => GenericFirewallStateError::BackendMismatch,
        GenericFirewallStateError::CorruptState => GenericFirewallStateError::CorruptState,
        GenericFirewallStateError::Capacity => GenericFirewallStateError::Capacity,
        GenericFirewallStateError::InvalidBootId => GenericFirewallStateError::InvalidBootId,
        GenericFirewallStateError::StaleState => GenericFirewallStateError::StaleState,
        GenericFirewallStateError::OrphanedNativeState =>
            GenericFirewallStateError::OrphanedNativeState,
        GenericFirewallStateError::NativeDrift => GenericFirewallStateError::NativeDrift,
        GenericFirewallStateError::NativeStateMissing => GenericFirewallStateError::NativeStateMissing,
        GenericFirewallStateError::PartialFamilyState => GenericFirewallStateError::PartialFamilyState,
        GenericFirewallStateError::Ownership => GenericFirewallStateError::Ownership,
        GenericFirewallStateError::PlanMismatch => GenericFirewallStateError::PlanMismatch,
        GenericFirewallStateError::Nftables(x) => GenericFirewallStateError::Nftables(
            copy_nft_error(x),
        ),
        GenericFirewallStateError::Iptables(x) => GenericFirewallStateError::Iptables(
            copy_iptables_error(x),
        ),
    }
}

} // verus!
