//! Bounded inventory and staging of typed radios.

use vstd::prelude::*;

use vstd::string::*;

use crate::change::{ChangeOperation, ConfigDomain, ObjectOwnership, RiskLevel};
use crate::firewall_error::{FirewallRenderError, FirewallRenderErrorView};
use crate::firewall_inventory::{selectors, selectors_of};
use crate::firewall_uci::{
    is_identifier, is_section, package_sections, parse_uci_show_package, safe_uci_identifier, text_view,
    valid_section, UciSection, UciSectionView,
};
use crate::items::{copy_list, copy_opt, same_list, same_opt, Item};
use crate::network_decode::{or_else, owned};
use crate::network_openwrt::{can_stage, staging_available, verdict_at};
use crate::network_stage::{all_identifiers, identifiers};
use crate::order::{sort_texts, sorted_texts};
use crate::parse::{read_u16, read_u8, u16_value, u8_value};
use crate::platform::PlatformCapabilities;
use crate::text::{
    ascii_control, begins, byte_len, byte_length, chars_are, chars_of, decimal, decimal_text, has_prefix,
    is_ascii_control, piece, same, same_option, starts,
};
use crate::uci_render::{
    append_assign, append_cleared, assign_line, bool_value, cleared_text, flag, is_quotable,
};
use crate::views::{group_views, lvres, opt, views, vres};
use crate::wireless_model::{
    WirelessBand, WirelessChannel, WirelessChannelWidth, WirelessInventory, WirelessInventoryView,
    WirelessMutationPlan, WirelessMutationPlanView, WirelessObject, WirelessObjectView, WirelessPlannedChange,
    WirelessPlannedChangeView, WirelessRadioConfig, WirelessRadioConfigView,
};

verus! {

broadcast use group_views;

/// Why a wireless inspection or stage was refused.
#[derive(Debug, Clone, Copy, PartialEq, Eq, Structural)]
pub enum WirelessRenderError {
    BackendUnavailable,
    MalformedUci,
    Capacity,
    DuplicateInventoryObject,
    DuplicateBinding,
    DuplicateSection,
    UnsafeBinding,
    MissingBinding,
    InvalidObject,
    PlanMismatch,
    UnsupportedSemantics,
    UnsupportedValue,
    Output,
}

impl View for WirelessRenderError {
    type V = WirelessRenderError;

    open spec fn view(&self) -> WirelessRenderError {
        *self
    }
}

impl WirelessRenderError {
    /// The text of the error.
    pub open spec fn message_text(self) -> Seq<char> {
        match self {
            WirelessRenderError::BackendUnavailable =>
                "OpenWrt wireless staging backend is unavailable"@,
            WirelessRenderError::MalformedUci => "wireless UCI input is malformed"@,
            WirelessRenderError::Capacity => "wireless inventory or stage exceeds its capacity"@,
            WirelessRenderError::DuplicateInventoryObject =>
                "wireless inventory contains a duplicate typed object"@,
            WirelessRenderError::DuplicateBinding => "wireless bindings contain a duplicate object"@,
            WirelessRenderError::DuplicateSection => "wireless bindings contain a duplicate section"@,
            WirelessRenderError::UnsafeBinding => "wireless binding is unsafe"@,
            WirelessRenderError::MissingBinding => "wireless plan has no exact fresh binding"@,
            WirelessRenderError::InvalidObject => "wireless object is invalid"@,
            WirelessRenderError::PlanMismatch => "wireless plan does not match the fresh inventory"@,
            WirelessRenderError::UnsupportedSemantics =>
                "wireless semantics are unsupported by the bound OpenWrt representation"@,
            WirelessRenderError::UnsupportedValue =>
                "wireless value cannot be represented safely in UCI"@,
            WirelessRenderError::Output => "failed to render wireless UCI batch"@,
        }
    }

    /// The text of the error.
    pub fn message(&self) -> (r: String)
        ensures
            r@ == self@.message_text(),
    {
        match self {
            WirelessRenderError::BackendUnavailable =>
                "OpenWrt wireless staging backend is unavailable".to_owned(),
            WirelessRenderError::MalformedUci => "wireless UCI input is malformed".to_owned(),
            WirelessRenderError::Capacity =>
                "wireless inventory or stage exceeds its capacity".to_owned(),
            WirelessRenderError::DuplicateInventoryObject =>
                "wireless inventory contains a duplicate typed object".to_owned(),
            WirelessRenderError::DuplicateBinding =>
                "wireless bindings contain a duplicate object".to_owned(),
            WirelessRenderError::DuplicateSection =>
                "wireless bindings contain a duplicate section".to_owned(),
            WirelessRenderError::UnsafeBinding => "wireless binding is unsafe".to_owned(),
            WirelessRenderError::MissingBinding =>
                "wireless plan has no exact fresh binding".to_owned(),
            WirelessRenderError::InvalidObject => "wireless object is invalid".to_owned(),
            WirelessRenderError::PlanMismatch => "wireless plan does not match the fresh inventory".to_owned(),
            WirelessRenderError::UnsupportedSemantics =>
                "wireless semantics are unsupported by the bound OpenWrt representation".to_owned(),
            WirelessRenderError::UnsupportedValue =>
                "wireless value cannot be represented safely in UCI".to_owned(),
            WirelessRenderError::Output => "failed to render wireless UCI batch".to_owned(),
        }
    }
}

/// The option that a section gives its band by.
#[derive(Debug, Clone, Copy, PartialEq, Eq, Structural)]
pub enum OpenWrtWirelessBandEncoding {
    Band,
    HwMode,
}

impl View for OpenWrtWirelessBandEncoding {
    type V = OpenWrtWirelessBandEncoding;

    open spec fn view(&self) -> OpenWrtWirelessBandEncoding {
        *self
    }
}

impl Item for OpenWrtWirelessBandEncoding {
    fn alike(&self, other: &Self) -> (r: bool) {
        *self == *other
    }

    fn twin(&self) -> (r: Self) {
        *self
    }
}

/// The generation that a channel mode belongs to.
#[derive(Debug, Clone, Copy, PartialEq, Eq, Structural)]
pub enum OpenWrtWirelessHtModeFamily {
    Ht,
    Vht,
    He,
    Eht,
}

impl View for OpenWrtWirelessHtModeFamily {
    type V = OpenWrtWirelessHtModeFamily;

    open spec fn view(&self) -> OpenWrtWirelessHtModeFamily {
        *self
    }
}

impl Item for OpenWrtWirelessHtModeFamily {
    fn alike(&self, other: &Self) -> (r: bool) {
        *self == *other
    }

    fn twin(&self) -> (r: Self) {
        *self
    }
}

/// A native check of a staged package: `uci -c <staging-dir> export wireless`.
#[derive(Debug, Clone, Copy, PartialEq, Eq, Structural)]
pub enum OpenWrtWirelessValidation {
    UciExport,
}

impl View for OpenWrtWirelessValidation {
    type V = OpenWrtWirelessValidation;

    open spec fn view(&self) -> OpenWrtWirelessValidation {
        *self
    }
}

impl Item for OpenWrtWirelessValidation {
    fn alike(&self, other: &Self) -> (r: bool) {
        *self == *other
    }

    fn twin(&self) -> (r: Self) {
        *self
    }
}

/// Which section a radio was found in, and how that section writes it.
#[derive(Debug, Clone, PartialEq, Eq)]
pub struct OpenWrtWirelessObjectBinding {
    pub id: String,
    pub section: String,
    pub present_options: Vec<String>,
    pub band_encoding: OpenWrtWirelessBandEncoding,
    pub band_value: String,
    pub htmode: Option<String>,
    pub htmode_family: Option<OpenWrtWirelessHtModeFamily>,
}

#[verifier::ext_equal]
pub struct OpenWrtWirelessObjectBindingView {
    pub id: Seq<char>,
    pub section: Seq<char>,
    pub present_options: Seq<Seq<char>>,
    pub band_encoding: OpenWrtWirelessBandEncoding,
    pub band_value: Seq<char>,
    pub htmode: Option<Seq<char>>,
    pub htmode_family: Option<OpenWrtWirelessHtModeFamily>,
}

impl View for OpenWrtWirelessObjectBinding {
    type V = OpenWrtWirelessObjectBindingView;

    open spec fn view(&self) -> OpenWrtWirelessObjectBindingView {
        OpenWrtWirelessObjectBindingView {
            id: self.id@,
            section: self.section@,
            present_options: views(self.present_options@),
            band_encoding: self.band_encoding,
            band_value: self.band_value@,
            htmode: opt(self.htmode),
            htmode_family: opt(self.htmode_family),
        }
    }
}

impl Item for OpenWrtWirelessObjectBinding {
    fn alike(&self, other: &Self) -> (r: bool) {
        same(self.id.as_str(), other.id.as_str())
            && same(self.section.as_str(), other.section.as_str())
            && same_list(&self.present_options, &other.present_options)
            && self.band_encoding == other.band_encoding
            && same(self.band_value.as_str(), other.band_value.as_str())
            && same_opt(&self.htmode, &other.htmode)
            && same_opt(&self.htmode_family, &other.htmode_family)
    }

    fn twin(&self) -> (r: Self) {
        OpenWrtWirelessObjectBinding {
            id: self.id.clone(),
            section: self.section.clone(),
            present_options: copy_list(&self.present_options),
            band_encoding: self.band_encoding,
            band_value: self.band_value.clone(),
            htmode: copy_opt(&self.htmode),
            htmode_family: copy_opt(&self.htmode_family),
        }
    }
}

/// One bounded, consistent view of the wireless package.
#[derive(Debug, Clone, PartialEq, Eq)]
pub struct OpenWrtWirelessInventorySnapshot {
    pub inventory: WirelessInventory,
    pub bindings: Vec<OpenWrtWirelessObjectBinding>,
    occupied_sections: Vec<String>,
    read_only_sections: Vec<String>,
}

#[verifier::ext_equal]
pub struct OpenWrtWirelessInventorySnapshotView {
    pub inventory: WirelessInventoryView,
    pub bindings: Seq<OpenWrtWirelessObjectBindingView>,
    pub occupied_sections: Seq<Seq<char>>,
    pub read_only_sections: Seq<Seq<char>>,
}

impl View for OpenWrtWirelessInventorySnapshot {
    type V = OpenWrtWirelessInventorySnapshotView;

    closed spec fn view(&self) -> OpenWrtWirelessInventorySnapshotView {
        OpenWrtWirelessInventorySnapshotView {
            inventory: self.inventory@,
            bindings: views(self.bindings@),
            occupied_sections: views(self.occupied_sections@),
            read_only_sections: views(self.read_only_sections@),
        }
    }
}

impl Item for OpenWrtWirelessInventorySnapshot {
    fn alike(&self, other: &Self) -> (r: bool) {
        self.inventory.alike(&other.inventory)
            && same_list(&self.bindings, &other.bindings)
            && same_list(&self.occupied_sections, &other.occupied_sections)
            && same_list(&self.read_only_sections, &other.read_only_sections)
    }

    fn twin(&self) -> (r: Self) {
        OpenWrtWirelessInventorySnapshot {
            inventory: self.inventory.twin(),
            bindings: copy_list(&self.bindings),
            occupied_sections: copy_list(&self.occupied_sections),
            read_only_sections: copy_list(&self.read_only_sections),
        }
    }
}

/// What the sections seen so far came to.
#[derive(Debug, Clone, PartialEq, Eq)]
pub struct WirelessScan {
    pub objects: Vec<WirelessObject>,
    pub bindings: Vec<OpenWrtWirelessObjectBinding>,
    pub read_only: Vec<String>,
}

#[verifier::ext_equal]
pub struct WirelessScanView {
    pub objects: Seq<WirelessObjectView>,
    pub bindings: Seq<OpenWrtWirelessObjectBindingView>,
    pub read_only: Seq<Seq<char>>,
}

impl View for WirelessScan {
    type V = WirelessScanView;

    open spec fn view(&self) -> WirelessScanView {
        WirelessScanView {
            objects: views(self.objects@),
            bindings: views(self.bindings@),
            read_only: views(self.read_only@),
        }
    }
}

impl Item for WirelessScan {
    fn alike(&self, other: &Self) -> (r: bool) {
        same_list(&self.objects, &other.objects)
            && same_list(&self.bindings, &other.bindings)
            && same_list(&self.read_only, &other.read_only)
    }

    fn twin(&self) -> (r: Self) {
        WirelessScan {
            objects: copy_list(&self.objects),
            bindings: copy_list(&self.bindings),
            read_only: copy_list(&self.read_only),
        }
    }
}

pub const MAX_BINDINGS: usize = 64;

pub const MAX_PRESENT_OPTIONS: usize = 64;

pub const MAX_BATCH_BYTES: usize = 65536;

pub const MAX_UCI_VALUE_BYTES: usize = 256;

pub const MAX_CHANGES: usize = 16;

impl OpenWrtWirelessInventorySnapshot {
    pub fn inventory(&self) -> (r: &WirelessInventory)
        ensures
            r@ == self@.inventory,
    {
        &self.inventory
    }

    pub fn bindings(&self) -> (r: &[OpenWrtWirelessObjectBinding])
        ensures
            views(r@) == self@.bindings,
    {
        self.bindings.as_slice()
    }

    pub fn occupied_sections(&self) -> (r: &[String])
        ensures
            views(r@) == self@.occupied_sections,
    {
        self.occupied_sections.as_slice()
    }

    pub fn read_only_sections(&self) -> (r: &[String])
        ensures
            views(r@) == self@.read_only_sections,
    {
        self.read_only_sections.as_slice()
    }
}

/// A complete staging artifact. Nothing in it has been executed.
#[derive(Debug, Clone, PartialEq, Eq)]
pub struct OpenWrtWirelessStage {
    pub uci_batch: String,
    pub validations: Vec<OpenWrtWirelessValidation>,
    pub activation_program: &'static str,
    pub activation_argument: &'static str,
}

#[verifier::ext_equal]
pub struct OpenWrtWirelessStageView {
    pub uci_batch: Seq<char>,
    pub validations: Seq<OpenWrtWirelessValidation>,
    pub activation_program: Seq<char>,
    pub activation_argument: Seq<char>,
}

impl View for OpenWrtWirelessStage {
    type V = OpenWrtWirelessStageView;

    open spec fn view(&self) -> OpenWrtWirelessStageView {
        OpenWrtWirelessStageView {
            uci_batch: self.uci_batch@,
            validations: self.validations@,
            activation_program: self.activation_program@,
            activation_argument: self.activation_argument@,
        }
    }
}

/// Selects staging only for supported releases with UCI available.
pub fn select_openwrt_wireless_staging(capabilities: &PlatformCapabilities) -> (r: Result<
    (),
    WirelessRenderError,
>)
    ensures
        r == (if can_stage(capabilities@) {
            Ok(())
        } else {
            Err(WirelessRenderError::BackendUnavailable)
        }),
{
    if staging_available(capabilities) {
        Ok(())
    } else {
        Err(WirelessRenderError::BackendUnavailable)
    }
}

/// The sections of the wireless package, with the errors of this module.
pub open spec fn wireless_sections(text: Seq<char>) -> Result<
    Seq<UciSectionView>,
    WirelessRenderError,
> {
    match package_sections(text, "wireless"@, true) {
        Ok(s) => Ok(s),
        Err(FirewallRenderErrorView::Capacity) => Err(WirelessRenderError::Capacity),
        Err(_) => Err(WirelessRenderError::MalformedUci),
    }
}

fn parse_wireless(input: &str) -> (r: Result<Vec<UciSection>, WirelessRenderError>)
    ensures
        lvres(r) == wireless_sections(input@),
{
    match parse_uci_show_package(input, "wireless") {
        Ok(s) => Ok(s),
        Err(FirewallRenderError::Capacity) => Err(WirelessRenderError::Capacity),
        Err(_) => Err(WirelessRenderError::MalformedUci),
    }
}

/// What a radio section says beyond the radio itself.
pub struct DecodedRadio {
    pub radio: WirelessRadioConfig,
    pub band_encoding: OpenWrtWirelessBandEncoding,
    pub band_value: String,
    pub htmode: Option<String>,
    pub htmode_family: Option<OpenWrtWirelessHtModeFamily>,
}

#[verifier::ext_equal]
pub struct DecodedRadioView {
    pub radio: WirelessRadioConfigView,
    pub band_encoding: OpenWrtWirelessBandEncoding,
    pub band_value: Seq<char>,
    pub htmode: Option<Seq<char>>,
    pub htmode_family: Option<OpenWrtWirelessHtModeFamily>,
}

impl View for DecodedRadio {
    type V = DecodedRadioView;

    open spec fn view(&self) -> DecodedRadioView {
        DecodedRadioView {
            radio: self.radio@,
            band_encoding: self.band_encoding,
            band_value: self.band_value@,
            htmode: opt(self.htmode),
            htmode_family: self.htmode_family,
        }
    }
}

pub open spec fn band_of(s: Seq<char>) -> Option<WirelessBand> {
    if s == "2g"@ {
        Some(WirelessBand::Ghz2)
    } else if s == "5g"@ {
        Some(WirelessBand::Ghz5)
    } else if s == "6g"@ {
        Some(WirelessBand::Ghz6)
    } else {
        None
    }
}

pub open spec fn hwmode_of(s: Seq<char>) -> Option<WirelessBand> {
    if s == "11g"@ {
        Some(WirelessBand::Ghz2)
    } else if s == "11a"@ {
        Some(WirelessBand::Ghz5)
    } else {
        None
    }
}

pub open spec fn width_of(s: Seq<char>) -> Option<WirelessChannelWidth> {
    if s == "20"@ {
        Some(WirelessChannelWidth::Mhz20)
    } else if s == "40"@ || s == "40+"@ || s == "40-"@ {
        Some(WirelessChannelWidth::Mhz40)
    } else if s == "80"@ {
        Some(WirelessChannelWidth::Mhz80)
    } else if s == "160"@ {
        Some(WirelessChannelWidth::Mhz160)
    } else {
        None
    }
}

pub open spec fn family_prefix(s: Seq<char>) -> Option<(OpenWrtWirelessHtModeFamily, int)> {
    if starts(s, "EHT"@) {
        Some((OpenWrtWirelessHtModeFamily::Eht, 3))
    } else if starts(s, "VHT"@) {
        Some((OpenWrtWirelessHtModeFamily::Vht, 3))
    } else if starts(s, "HT"@) {
        Some((OpenWrtWirelessHtModeFamily::Ht, 2))
    } else if starts(s, "HE"@) {
        Some((OpenWrtWirelessHtModeFamily::He, 2))
    } else {
        None
    }
}

pub open spec fn htmode_of(s: Seq<char>) -> Option<
    (WirelessChannelWidth, OpenWrtWirelessHtModeFamily),
> {
    match family_prefix(s) {
        None => None,
        Some((family, n)) => match width_of(s.skip(n)) {
            None => None,
            Some(w) => Some((w, family)),
        },
    }
}

pub open spec fn disabled_of(s: Option<Seq<char>>) -> Option<bool> {
    match s {
        None => Some(false),
        Some(v) => if v == "0"@ {
            Some(false)
        } else if v == "1"@ {
            Some(true)
        } else {
            None
        },
    }
}

pub open spec fn channel_of(s: Option<Seq<char>>) -> Option<WirelessChannel> {
    match s {
        None => Some(WirelessChannel::Auto),
        Some(v) => if v == "auto"@ {
            Some(WirelessChannel::Auto)
        } else {
            match u16_value(v) {
                Some(channel) => Some(WirelessChannel::Fixed { channel }),
                None => None,
            }
        },
    }
}

pub open spec fn power_of(s: Option<Seq<char>>) -> Option<Option<u8>> {
    match s {
        None => Some(None),
        Some(v) => match u8_value(v) {
            Some(p) => Some(Some(p)),
            None => None,
        },
    }
}

/// The options that a radio is read from.
pub open spec fn radio_options() -> Seq<Seq<char>> {
    seq!["type"@, "disabled"@, "band"@, "hwmode"@, "channel"@, "htmode"@, "country"@, "txpower"@]
}

pub open spec fn is_scalar_radio(s: UciSectionView) -> bool {
    forall|i: int|
        0 <= i < radio_options().len() ==> match s.get(#[trigger] radio_options()[i]) {
            Some(v) => v.len() == 1,
            None => true,
        }
}

/// The band, and by which option and value it is given: one of the two options must be.
pub open spec fn band_given(s: UciSectionView) -> Option<
    (WirelessBand, OpenWrtWirelessBandEncoding, Seq<char>),
> {
    match (s.first("band"@), s.first("hwmode"@)) {
        (Some(raw), None) => match band_of(raw) {
            Some(b) => Some((b, OpenWrtWirelessBandEncoding::Band, raw)),
            None => None,
        },
        (None, Some(raw)) => match hwmode_of(raw) {
            Some(b) => Some((b, OpenWrtWirelessBandEncoding::HwMode, raw)),
            None => None,
        },
        _ => None,
    }
}

pub open spec fn mode_given(s: UciSectionView) -> Option<
    (WirelessChannelWidth, Option<OpenWrtWirelessHtModeFamily>),
> {
    match s.first("htmode"@) {
        None => Some((WirelessChannelWidth::Auto, None)),
        Some(raw) => match htmode_of(raw) {
            Some((w, f)) => Some((w, Some(f))),
            None => None,
        },
    }
}

/// The radio that a section describes.
pub open spec fn radio_value(s: UciSectionView) -> Option<DecodedRadioView> {
    if !is_identifier(s.selector) || s.first("type"@) != Some("mac80211"@) || !is_scalar_radio(s) {
        None
    } else {
        match (
            band_given(s),
            mode_given(s),
            channel_of(s.first("channel"@)),
            disabled_of(s.first("disabled"@)),
            power_of(s.first("txpower"@)),
        ) {
            (
                Some((band, band_encoding, band_value)),
                Some((width, htmode_family)),
                Some(channel),
                Some(disabled),
                Some(tx_power_dbm),
            ) => Some(
                DecodedRadioView {
                    radio: WirelessRadioConfigView {
                        id: s.selector,
                        ownership: ObjectOwnership::PlatformNative,
                        enabled: !disabled,
                        band,
                        channel,
                        width,
                        country: s.first("country"@),
                        tx_power_dbm,
                    },
                    band_encoding,
                    band_value,
                    htmode: s.first("htmode"@),
                    htmode_family,
                },
            ),
            _ => None,
        }
    }
}

/// The index of the first radio of an identity from `i` on, or the number of radios.
pub open spec fn radio_from(objects: Seq<WirelessObjectView>, id: Seq<char>, i: int) -> int
    decreases objects.len() - i,
{
    if i < 0 || i >= objects.len() {
        objects.len() as int
    } else if objects[i].id() == id {
        i
    } else {
        radio_from(objects, id, i + 1)
    }
}

pub open spec fn radio_binding(s: UciSectionView, d: DecodedRadioView) -> OpenWrtWirelessObjectBindingView {
    OpenWrtWirelessObjectBindingView {
        id: d.radio.id,
        section: s.selector,
        present_options: sorted_texts(s.option_names()),
        band_encoding: d.band_encoding,
        band_value: d.band_value,
        htmode: d.htmode,
        htmode_family: d.htmode_family,
    }
}

/// What a section adds to a scan, given whether the object model accepts its radio.
pub open spec fn wireless_step(state: WirelessScanView, s: UciSectionView, valid: bool) -> Result<
    WirelessScanView,
    WirelessRenderError,
> {
    let alone = WirelessScanView { read_only: state.read_only.push(s.selector), ..state };
    if s.section_type != "wifi-device"@ || starts(s.selector, "mbed_"@) || s.has("mbed_managed"@) {
        Ok(alone)
    } else {
        match radio_value(s) {
            None => Ok(alone),
            Some(d) => if !valid {
                Ok(alone)
            } else if radio_from(state.objects, d.radio.id, 0) < state.objects.len() {
                Err(WirelessRenderError::DuplicateInventoryObject)
            } else if s.options.len() > MAX_PRESENT_OPTIONS {
                Err(WirelessRenderError::Capacity)
            } else {
                Ok(
                    WirelessScanView {
                        objects: state.objects.push(WirelessObjectView::Radio(d.radio)),
                        bindings: state.bindings.push(radio_binding(s, d)),
                        ..state
                    },
                )
            },
        }
    }
}

/// What the sections from `i` on add to a scan.
pub open spec fn wireless_scan(
    state: WirelessScanView,
    sections: Seq<UciSectionView>,
    valid: Seq<bool>,
    i: int,
) -> Result<WirelessScanView, WirelessRenderError>
    decreases sections.len() - i,
{
    if i < 0 || i >= sections.len() {
        Ok(state)
    } else {
        match wireless_step(state, sections[i], verdict_at(valid, i)) {
            Err(e) => Err(e),
            Ok(next) => wireless_scan(next, sections, valid, i + 1),
        }
    }
}

pub open spec fn empty_scan() -> WirelessScanView {
    WirelessScanView { objects: Seq::empty(), bindings: Seq::empty(), read_only: Seq::empty() }
}

/// The snapshot that a package makes, given the verdicts of the object model on the radio of each
/// section.
pub open spec fn wireless_snapshot(text: Seq<char>, valid: Seq<bool>) -> Result<
    OpenWrtWirelessInventorySnapshotView,
    WirelessRenderError,
> {
    match wireless_sections(text) {
        Err(e) => Err(e),
        Ok(sections) => match wireless_scan(empty_scan(), sections, valid, 0) {
            Err(e) => Err(e),
            Ok(state) => if state.objects.len() > MAX_BINDINGS {
                Err(WirelessRenderError::Capacity)
            } else {
                Ok(
                    OpenWrtWirelessInventorySnapshotView {
                        inventory: WirelessInventoryView { objects: state.objects },
                        bindings: state.bindings,
                        occupied_sections: selectors(sections),
                        read_only_sections: state.read_only,
                    },
                )
            },
        },
    }
}

fn decode_band(raw: &str) -> (r: Option<WirelessBand>)
    ensures
        r == band_of(raw@),
{
    if same(raw, "2g") {
        Some(WirelessBand::Ghz2)
    } else if same(raw, "5g") {
        Some(WirelessBand::Ghz5)
    } else if same(raw, "6g") {
        Some(WirelessBand::Ghz6)
    } else {
        None
    }
}

fn decode_hwmode(raw: &str) -> (r: Option<WirelessBand>)
    ensures
        r == hwmode_of(raw@),
{
    if same(raw, "11g") {
        Some(WirelessBand::Ghz2)
    } else if same(raw, "11a") {
        Some(WirelessBand::Ghz5)
    } else {
        None
    }
}

fn decode_width(s: &[char]) -> (r: Option<WirelessChannelWidth>)
    ensures
        r == width_of(s@),
{
    if chars_are(s, "20") {
        Some(WirelessChannelWidth::Mhz20)
    } else if chars_are(s, "40") || chars_are(s, "40+") || chars_are(s, "40-") {
        Some(WirelessChannelWidth::Mhz40)
    } else if chars_are(s, "80") {
        Some(WirelessChannelWidth::Mhz80)
    } else if chars_are(s, "160") {
        Some(WirelessChannelWidth::Mhz160)
    } else {
        None
    }
}

/// Reads a channel mode: the family that it begins with, and the width behind it.
pub fn decode_htmode(raw: &str) -> (r: Option<(WirelessChannelWidth, OpenWrtWirelessHtModeFamily)>)
    ensures
        r == htmode_of(raw@),
{
    let cs = chars_of(raw);
    let s = cs.as_slice();
    proof {
        reveal_strlit("EHT");
        reveal_strlit("VHT");
        reveal_strlit("HT");
        reveal_strlit("HE");
    }
    let (family, n): (OpenWrtWirelessHtModeFamily, usize) = if begins(s, "EHT") {
        (OpenWrtWirelessHtModeFamily::Eht, 3)
    } else if begins(s, "VHT") {
        (OpenWrtWirelessHtModeFamily::Vht, 3)
    } else if begins(s, "HT") {
        (OpenWrtWirelessHtModeFamily::Ht, 2)
    } else if begins(s, "HE") {
        (OpenWrtWirelessHtModeFamily::He, 2)
    } else {
        return None;
    };
    let rest = piece(s, n, s.len());
    assert(rest@ =~= raw@.skip(n as int));
    match decode_width(rest) {
        None => None,
        Some(w) => Some((w, family)),
    }
}

fn decode_disabled(raw: Option<&str>) -> (r: Option<bool>)
    ensures
        r == disabled_of(text_view(raw)),
{
    match raw {
        None => Some(false),
        Some(v) => if same(v, "0") {
            Some(false)
        } else if same(v, "1") {
            Some(true)
        } else {
            None
        },
    }
}

fn decode_channel(raw: Option<&str>) -> (r: Option<WirelessChannel>)
    ensures
        r == channel_of(text_view(raw)),
{
    match raw {
        None => Some(WirelessChannel::Auto),
        Some(v) => if same(v, "auto") {
            Some(WirelessChannel::Auto)
        } else {
            match read_u16(v) {
                Some(channel) => Some(WirelessChannel::Fixed { channel }),
                None => None,
            }
        },
    }
}

fn decode_power(raw: Option<&str>) -> (r: Option<Option<u8>>)
    ensures
        r == power_of(text_view(raw)),
{
    match raw {
        None => Some(None),
        Some(v) => match read_u8(v) {
            Some(p) => Some(Some(p)),
            None => None,
        },
    }
}

fn supported_fields_are_scalar(section: &UciSection) -> (r: bool)
    ensures
        r == is_scalar_radio(section@),
{
    let names = ["type", "disabled", "band", "hwmode", "channel", "htmode", "country", "txpower"];
    assert(views(names@) =~= radio_options());
    let mut i: usize = 0;
    while i < 8
        invariant
            i <= 8,
            views(names@) == radio_options(),
            forall|j: int|
                0 <= j < i ==> match section@.get(#[trigger] radio_options()[j]) {
                    Some(v) => v.len() == 1,
                    None => true,
                },
        decreases 8 - i,
    {
        assert(radio_options()[i as int] == names@[i as int]@);
        match section.get(names[i]) {
            Some(v) => {
                if v.len() != 1 {
                    return false;
                }
            },
            None => {},
        }
        i = i + 1;
    }
    true
}

fn decode_radio(section: &UciSection) -> (r: Option<DecodedRadio>)
    ensures
        opt(r) == radio_value(section@),
{
    if !safe_uci_identifier(section.selector.as_str()) || !same_option(
        section.first("type"),
        "mac80211",
    ) || !supported_fields_are_scalar(section) {
        return None;
    }
    let (band, band_encoding, band_value) = match (
        section.first("band"),
        section.first("hwmode"),
    ) {
        (Some(raw), None) => match decode_band(raw) {
            Some(b) => (b, OpenWrtWirelessBandEncoding::Band, raw.to_owned()),
            None => {
                return None;
            },
        },
        (None, Some(raw)) => match decode_hwmode(raw) {
            Some(b) => (b, OpenWrtWirelessBandEncoding::HwMode, raw.to_owned()),
            None => {
                return None;
            },
        },
        _ => {
            return None;
        },
    };
    let (width, htmode_family) = match section.first("htmode") {
        None => (WirelessChannelWidth::Auto, None),
        Some(raw) => match decode_htmode(raw) {
            Some((w, f)) => (w, Some(f)),
            None => {
                return None;
            },
        },
    };
    match (
        decode_channel(section.first("channel")),
        decode_disabled(section.first("disabled")),
        decode_power(section.first("txpower")),
    ) {
        (Some(channel), Some(disabled), Some(tx_power_dbm)) => Some(
            DecodedRadio {
                radio: WirelessRadioConfig {
                    id: section.selector.clone(),
                    ownership: ObjectOwnership::PlatformNative,
                    enabled: !disabled,
                    band,
                    channel,
                    width,
                    country: owned(section.first("country")),
                    tx_power_dbm,
                },
                band_encoding,
                band_value,
                htmode: owned(section.first("htmode")),
                htmode_family,
            },
        ),
        _ => None,
    }
}

fn find_radio(objects: &Vec<WirelessObject>, id: &str) -> (r: usize)
    ensures
        r == radio_from(views(objects@), id@, 0),
        r <= objects@.len(),
{
    let mut i: usize = 0;
    while i < objects.len()
        invariant
            i <= objects@.len(),
            radio_from(views(objects@), id@, i as int) == radio_from(views(objects@), id@, 0),
        decreases objects@.len() - i,
    {
        if same(objects[i].id(), id) {
            return i;
        }
        i = i + 1;
    }
    i
}

fn scan_section(state: &mut WirelessScan, section: &UciSection, valid: bool) -> (r: Result<
    (),
    WirelessRenderError,
>)
    ensures
        match r {
            Ok(()) => wireless_step(old(state)@, section@, valid) == Ok::<
                WirelessScanView,
                WirelessRenderError,
            >(final(state)@),
            Err(e) => wireless_step(old(state)@, section@, valid) == Err::<
                WirelessScanView,
                WirelessRenderError,
            >(e),
        },
{
    if !same(section.section_type.as_str(), "wifi-device") || has_prefix(
        section.selector.as_str(),
        "mbed_",
    ) || section.has("mbed_managed") {
        state.read_only.push(section.selector.clone());
        return Ok(());
    }
    match decode_radio(section) {
        None => {
            state.read_only.push(section.selector.clone());
            Ok(())
        },
        Some(decoded) => {
            if !valid {
                state.read_only.push(section.selector.clone());
                return Ok(());
            }
            if find_radio(&state.objects, decoded.radio.id.as_str()) < state.objects.len() {
                return Err(WirelessRenderError::DuplicateInventoryObject);
            }
            if section.options.len() > MAX_PRESENT_OPTIONS {
                return Err(WirelessRenderError::Capacity);
            }
            let ghost view = decoded@;
            let DecodedRadio { radio, band_encoding, band_value, htmode, htmode_family } = decoded;
            let binding = OpenWrtWirelessObjectBinding {
                id: radio.id.clone(),
                section: section.selector.clone(),
                present_options: sort_texts(&section.names()),
                band_encoding,
                band_value,
                htmode,
                htmode_family,
            };
            assert(binding@ =~= radio_binding(section@, view));
            state.bindings.push(binding);
            state.objects.push(WirelessObject::Radio(radio));
            Ok(())
        },
    }
}

/// Reconstructs supported radios and their bindings from one wireless package.
///
/// The verdicts say of each section, by its index, whether the object model accepts the radio that
/// it describes. Every section that is no such radio is reported as read-only, wireless interfaces
/// with their credentials among them.
pub fn inspect_openwrt_wireless_inventory(uci_show: &str, valid: &[bool]) -> (r: Result<
    OpenWrtWirelessInventorySnapshot,
    WirelessRenderError,
>)
    ensures
        vres(r) == wireless_snapshot(uci_show@, valid@),
{
    let sections = match parse_wireless(uci_show) {
        Ok(s) => s,
        Err(e) => {
            return Err(e);
        },
    };
    let mut state = WirelessScan {
        objects: Vec::new(),
        bindings: Vec::new(),
        read_only: Vec::new(),
    };
    assert(state@ =~= empty_scan());
    let mut i: usize = 0;
    while i < sections.len()
        invariant
            i <= sections@.len(),
            wireless_sections(uci_show@) == Ok::<Seq<UciSectionView>, WirelessRenderError>(
                views(sections@),
            ),
            wireless_scan(state@, views(sections@), valid@, i as int) == wireless_scan(
                empty_scan(),
                views(sections@),
                valid@,
                0,
            ),
        decreases sections@.len() - i,
    {
        assert(views(sections@)[i as int] == sections@[i as int]@);
        let verdict = i < valid.len() && valid[i];
        match scan_section(&mut state, &sections[i], verdict) {
            Ok(()) => {},
            Err(e) => {
                return Err(e);
            },
        }
        i = i + 1;
    }
    if state.objects.len() > MAX_BINDINGS {
        return Err(WirelessRenderError::Capacity);
    }
    let occupied_sections = selectors_of(&sections);
    let WirelessScan { objects, bindings, read_only } = state;
    Ok(
        OpenWrtWirelessInventorySnapshot {
            inventory: WirelessInventory { objects },
            bindings,
            occupied_sections,
            read_only_sections: read_only,
        },
    )
}

/// A radio, or none, with its view.
pub struct Candidate {
    pub object: Option<WirelessObject>,
}

impl View for Candidate {
    type V = Option<WirelessObjectView>;

    open spec fn view(&self) -> Option<WirelessObjectView> {
        opt(self.object)
    }
}

/// The radio of a section, as far as the object model is asked about it.
pub open spec fn candidate_of(s: UciSectionView) -> Option<WirelessObjectView> {
    match radio_value(s) {
        Some(d) => Some(WirelessObjectView::Radio(d.radio)),
        None => None,
    }
}

/// The radios that the object model is to be asked about, one for each section.
pub fn wireless_candidates(uci_show: &str) -> (r: Result<Vec<Candidate>, WirelessRenderError>)
    ensures
        lvres(r) == (match wireless_sections(uci_show@) {
            Err(e) => Err(e),
            Ok(s) => Ok(Seq::new(s.len(), |i: int| candidate_of(s[i]))),
        }),
{
    let sections = match parse_wireless(uci_show) {
        Ok(s) => s,
        Err(e) => {
            return Err(e);
        },
    };
    let mut r: Vec<Candidate> = Vec::new();
    let mut i: usize = 0;
    while i < sections.len()
        invariant
            i <= sections@.len(),
            r@.len() == i,
            forall|j: int|
                0 <= j < i ==> #[trigger] views(r@)[j] == candidate_of(views(sections@)[j]),
        decreases sections@.len() - i,
    {
        let object = match decode_radio(&sections[i]) {
            Some(d) => Some(WirelessObject::Radio(d.radio)),
            None => None,
        };
        assert(opt(object) == candidate_of(views(sections@)[i as int]));
        r.push(Candidate { object });
        i = i + 1;
    }
    let ghost s = views(sections@);
    assert(views(r@) =~= Seq::new(s.len(), |i: int| candidate_of(s[i])));
    Ok(r)
}

/// The radio of an identity in an inventory.
pub open spec fn stored(objects: Seq<WirelessObjectView>, id: Seq<char>) -> Option<WirelessObjectView> {
    let at = radio_from(objects, id, 0);
    if at < objects.len() {
        Some(objects[at])
    } else {
        None
    }
}

pub open spec fn ids_distinct(objects: Seq<WirelessObjectView>) -> bool {
    forall|a: int, b: int|
        0 <= a < b < objects.len() ==> (#[trigger] objects[a]).id() != (#[trigger] objects[b]).id()
}

pub open spec fn touched_before(changes: Seq<WirelessPlannedChangeView>, i: int) -> bool {
    exists|j: int| 0 <= j < i && (#[trigger] changes[j]).before.id() == changes[i].before.id()
}

/// Whether a change agrees with its own metadata and with the inventory.
pub open spec fn change_matches(
    changes: Seq<WirelessPlannedChangeView>,
    objects: Seq<WirelessObjectView>,
    i: int,
) -> Result<(), WirelessRenderError> {
    let c = changes[i];
    if !c.before_checks.valid || !c.after_checks.valid || c.before_checks.digest is None
        || c.after_checks.digest is None {
        Err(WirelessRenderError::InvalidObject)
    } else if touched_before(changes, i) || c.diff.object.domain != ConfigDomain::Wireless
        || c.diff.object.kind != "radio"@ || c.diff.object.id != c.before.id()
        || c.diff.object.ownership != ObjectOwnership::PlatformNative
        || c.diff.object.expected_version != c.before_checks.digest || c.diff.operation
        != ChangeOperation::Update || c.diff.before_digest != c.before_checks.digest
        || c.diff.after_digest != c.after_checks.digest || c.before.id() != c.after.id() || stored(
        objects,
        c.before.id(),
    ) != Some(c.before) {
        Err(WirelessRenderError::PlanMismatch)
    } else {
        Ok(())
    }
}

/// Whether the changes from `i` on agree with their metadata and the inventory.
pub open spec fn changes_match(
    changes: Seq<WirelessPlannedChangeView>,
    objects: Seq<WirelessObjectView>,
    i: int,
) -> Result<(), WirelessRenderError>
    decreases changes.len() - i,
{
    if i < 0 || i >= changes.len() {
        Ok(())
    } else {
        match change_matches(changes, objects, i) {
            Err(e) => Err(e),
            Ok(()) => changes_match(changes, objects, i + 1),
        }
    }
}

pub open spec fn plan_matches(
    plan: WirelessMutationPlanView,
    objects: Seq<WirelessObjectView>,
) -> Result<(), WirelessRenderError> {
    if plan.risk != RiskLevel::R3 || plan.changes.len() == 0 || plan.changes.len() > MAX_CHANGES {
        Err(WirelessRenderError::PlanMismatch)
    } else if !ids_distinct(objects) {
        Err(WirelessRenderError::DuplicateInventoryObject)
    } else {
        changes_match(plan.changes, objects, 0)
    }
}

/// Whether a value can be written: bounded, not empty, without quotes, backslashes or control
/// characters.
pub open spec fn is_safe_value(s: Seq<char>) -> bool {
    0 < s.len() && byte_len(s) <= MAX_UCI_VALUE_BYTES && forall|i: int|
        0 <= i < s.len() ==> !is_ascii_control(#[trigger] s[i]) && s[i] != '\'' && s[i] != '\\'
}

pub open spec fn binding_safe(b: OpenWrtWirelessObjectBindingView) -> bool {
    is_identifier(b.id) && is_section(b.section, "wifi-device"@) && b.id == b.section
        && b.present_options.len() <= MAX_PRESENT_OPTIONS && all_identifiers(b.present_options)
        && is_safe_value(b.band_value) && (b.htmode matches Some(m) ==> is_safe_value(m))
}

/// Whether the bindings from `i` on are safe and clash with none before them.
pub open spec fn bindings_valid(
    bindings: Seq<OpenWrtWirelessObjectBindingView>,
    i: int,
) -> Result<(), WirelessRenderError>
    decreases bindings.len() - i,
{
    if i < 0 || i >= bindings.len() {
        Ok(())
    } else if !binding_safe(bindings[i]) {
        Err(WirelessRenderError::UnsafeBinding)
    } else if exists|j: int| 0 <= j < i && (#[trigger] bindings[j]).id == bindings[i].id {
        Err(WirelessRenderError::DuplicateBinding)
    } else if exists|j: int| 0 <= j < i && (#[trigger] bindings[j]).section == bindings[i].section {
        Err(WirelessRenderError::DuplicateSection)
    } else {
        bindings_valid(bindings, i + 1)
    }
}

/// The first binding of a radio from `i` on.
pub open spec fn binding_from(
    bindings: Seq<OpenWrtWirelessObjectBindingView>,
    id: Seq<char>,
    i: int,
) -> Option<OpenWrtWirelessObjectBindingView>
    decreases bindings.len() - i,
{
    if i < 0 || i >= bindings.len() {
        None
    } else if bindings[i].id == id {
        Some(bindings[i])
    } else {
        binding_from(bindings, id, i + 1)
    }
}

/// Whether a mode family can carry a channel width on a band.
pub open spec fn family_fits(
    family: OpenWrtWirelessHtModeFamily,
    band: WirelessBand,
    width: WirelessChannelWidth,
) -> bool {
    width == WirelessChannelWidth::Auto || match family {
        OpenWrtWirelessHtModeFamily::Ht => band != WirelessBand::Ghz6 && (width
            == WirelessChannelWidth::Mhz20 || width == WirelessChannelWidth::Mhz40),
        OpenWrtWirelessHtModeFamily::Vht => band == WirelessBand::Ghz5,
        OpenWrtWirelessHtModeFamily::He => true,
        OpenWrtWirelessHtModeFamily::Eht => true,
    }
}

/// Whether the bound section can represent a changed radio.
pub open spec fn is_representable(
    b: OpenWrtWirelessObjectBindingView,
    before: WirelessRadioConfigView,
    after: WirelessRadioConfigView,
) -> bool {
    before.id == b.id && before.ownership == ObjectOwnership::PlatformNative && after.ownership
        == ObjectOwnership::PlatformNative && !(b.band_encoding
        == OpenWrtWirelessBandEncoding::HwMode && after.band == WirelessBand::Ghz6) && (
    b.htmode_family matches Some(f) ==> family_fits(f, after.band, after.width))
}

pub open spec fn band_text(encoding: OpenWrtWirelessBandEncoding, band: WirelessBand) -> Option<
    Seq<char>,
> {
    match (encoding, band) {
        (OpenWrtWirelessBandEncoding::Band, WirelessBand::Ghz2) => Some("2g"@),
        (OpenWrtWirelessBandEncoding::Band, WirelessBand::Ghz5) => Some("5g"@),
        (OpenWrtWirelessBandEncoding::Band, WirelessBand::Ghz6) => Some("6g"@),
        (OpenWrtWirelessBandEncoding::HwMode, WirelessBand::Ghz2) => Some("11g"@),
        (OpenWrtWirelessBandEncoding::HwMode, WirelessBand::Ghz5) => Some("11a"@),
        (OpenWrtWirelessBandEncoding::HwMode, WirelessBand::Ghz6) => None,
    }
}

pub open spec fn default_family(band: WirelessBand) -> OpenWrtWirelessHtModeFamily {
    match band {
        WirelessBand::Ghz2 => OpenWrtWirelessHtModeFamily::Ht,
        WirelessBand::Ghz5 => OpenWrtWirelessHtModeFamily::Vht,
        WirelessBand::Ghz6 => OpenWrtWirelessHtModeFamily::He,
    }
}

pub open spec fn family_text(f: OpenWrtWirelessHtModeFamily) -> Seq<char> {
    match f {
        OpenWrtWirelessHtModeFamily::Ht => "HT"@,
        OpenWrtWirelessHtModeFamily::Vht => "VHT"@,
        OpenWrtWirelessHtModeFamily::He => "HE"@,
        OpenWrtWirelessHtModeFamily::Eht => "EHT"@,
    }
}

pub open spec fn width_text(w: WirelessChannelWidth) -> Seq<char> {
    match w {
        WirelessChannelWidth::Auto => Seq::empty(),
        WirelessChannelWidth::Mhz20 => "20"@,
        WirelessChannelWidth::Mhz40 => "40"@,
        WirelessChannelWidth::Mhz80 => "80"@,
        WirelessChannelWidth::Mhz160 => "160"@,
    }
}

/// The mode that a radio is written with: none for the automatic width, the one it has where the
/// width stays, else one made of the family and the width.
pub open spec fn mode_text(
    b: OpenWrtWirelessObjectBindingView,
    before: WirelessRadioConfigView,
    after: WirelessRadioConfigView,
) -> Result<Option<Seq<char>>, WirelessRenderError> {
    let family = or_else(b.htmode_family, default_family(after.band));
    if after.width == WirelessChannelWidth::Auto {
        Ok(None)
    } else if before.width == after.width && b.htmode is Some {
        Ok(b.htmode)
    } else if !family_fits(family, after.band, after.width) {
        Err(WirelessRenderError::UnsupportedSemantics)
    } else {
        Ok(Some(family_text(family) + width_text(after.width)))
    }
}

/// The options that an update may remove.
pub open spec fn mutable_options() -> Seq<Seq<char>> {
    seq!["disabled"@, "band"@, "hwmode"@, "channel"@, "htmode"@, "country"@, "txpower"@]
}

/// The batch with one more option set, where there is a value for it.
pub open spec fn with_option(
    batch: Result<Seq<char>, WirelessRenderError>,
    section: Seq<char>,
    name: Seq<char>,
    value: Option<Seq<char>>,
) -> Result<Seq<char>, WirelessRenderError> {
    match batch {
        Err(e) => Err(e),
        Ok(b) => match value {
            None => Ok(b),
            Some(v) => if is_identifier(section) && is_identifier(name) && is_safe_value(v) {
                Ok(b + assign_line("set"@, "wireless"@, section, name, v))
            } else {
                Err(WirelessRenderError::UnsupportedValue)
            },
        },
    }
}

pub open spec fn channel_text(c: WirelessChannel) -> Seq<char> {
    match c {
        WirelessChannel::Auto => "auto"@,
        WirelessChannel::Fixed { channel } => decimal(channel as nat),
    }
}

pub open spec fn power_text(p: Option<u8>) -> Option<Seq<char>> {
    match p {
        Some(n) => Some(decimal(n as nat)),
        None => None,
    }
}

/// The batch with the commands that rewrite a radio behind it.
pub open spec fn radio_updated(
    batch: Seq<char>,
    b: OpenWrtWirelessObjectBindingView,
    before: WirelessRadioConfigView,
    after: WirelessRadioConfigView,
) -> Result<Seq<char>, WirelessRenderError> {
    if !is_representable(b, before, after) {
        Err(WirelessRenderError::UnsupportedSemantics)
    } else {
        match (if before.band == after.band {
            Some(b.band_value)
        } else {
            band_text(b.band_encoding, after.band)
        }) {
            None => Err(WirelessRenderError::UnsupportedSemantics),
            Some(band) => {
                let cleared = cleared_text(
                    batch,
                    "wireless"@,
                    b.section,
                    b.present_options,
                    mutable_options(),
                    0,
                );
                let named = with_option(
                    with_option(
                        with_option(Ok(cleared), b.section, "disabled"@, Some(flag(!after.enabled))),
                        b.section,
                        if b.band_encoding == OpenWrtWirelessBandEncoding::Band {
                            "band"@
                        } else {
                            "hwmode"@
                        },
                        Some(band),
                    ),
                    b.section,
                    "channel"@,
                    Some(channel_text(after.channel)),
                );
                match named {
                    Err(e) => Err(e),
                    Ok(t) => match mode_text(b, before, after) {
                        Err(e) => Err(e),
                        Ok(mode) => with_option(
                            with_option(
                                with_option(Ok(t), b.section, "htmode"@, mode),
                                b.section,
                                "country"@,
                                after.country,
                            ),
                            b.section,
                            "txpower"@,
                            power_text(after.tx_power_dbm),
                        ),
                    },
                }
            },
        }
    }
}

pub open spec fn radio_of(o: WirelessObjectView) -> WirelessRadioConfigView {
    match o {
        WirelessObjectView::Radio(r) => r,
    }
}

/// The batch behind the changes from `i` on.
pub open spec fn drafted(
    batch: Seq<char>,
    changes: Seq<WirelessPlannedChangeView>,
    bindings: Seq<OpenWrtWirelessObjectBindingView>,
    i: int,
) -> Result<Seq<char>, WirelessRenderError>
    decreases changes.len() - i,
{
    if i < 0 || i >= changes.len() {
        Ok(batch)
    } else {
        match binding_from(bindings, changes[i].before.id(), 0) {
            None => Err(WirelessRenderError::MissingBinding),
            Some(b) => match radio_updated(
                batch,
                b,
                radio_of(changes[i].before),
                radio_of(changes[i].after),
            ) {
                Err(e) => Err(e),
                Ok(next) => if byte_len(next) > MAX_BATCH_BYTES {
                    Err(WirelessRenderError::Capacity)
                } else {
                    drafted(next, changes, bindings, i + 1)
                },
            },
        }
    }
}

/// The stage that a plan becomes against a snapshot.
pub open spec fn wireless_stage(
    plan: WirelessMutationPlanView,
    s: OpenWrtWirelessInventorySnapshotView,
) -> Result<OpenWrtWirelessStageView, WirelessRenderError> {
    match plan_matches(plan, s.inventory.objects) {
        Err(e) => Err(e),
        Ok(()) => if s.bindings.len() > MAX_BINDINGS {
            Err(WirelessRenderError::Capacity)
        } else {
            match bindings_valid(s.bindings, 0) {
                Err(e) => Err(e),
                Ok(()) => match drafted(Seq::empty(), plan.changes, s.bindings, 0) {
                    Err(e) => Err(e),
                    Ok(batch) => Ok(
                        OpenWrtWirelessStageView {
                            uci_batch: batch + "commit wireless\n"@,
                            validations: seq![OpenWrtWirelessValidation::UciExport],
                            activation_program: "/sbin/wifi"@,
                            activation_argument: "reload"@,
                        },
                    ),
                },
            }
        },
    }
}

fn safe_value(value: &str) -> (r: bool)
    ensures
        r == is_safe_value(value@),
{
    let cs = chars_of(value);
    if cs.len() == 0 || byte_length(value) > MAX_UCI_VALUE_BYTES {
        return false;
    }
    let mut i: usize = 0;
    while i < cs.len()
        invariant
            i <= cs@.len(),
            cs@ == value@,
            0 < cs@.len(),
            byte_len(value@) <= MAX_UCI_VALUE_BYTES,
            forall|j: int|
                0 <= j < i ==> !is_ascii_control(#[trigger] cs@[j]) && cs@[j] != '\'' && cs@[j]
                    != '\\',
        decreases cs@.len() - i,
    {
        if ascii_control(cs[i]) || cs[i] == '\'' || cs[i] == '\\' {
            return false;
        }
        i = i + 1;
    }
    true
}

fn safe_binding(b: &OpenWrtWirelessObjectBinding) -> (r: bool)
    ensures
        r == binding_safe(b@),
{
    let mode_safe = match &b.htmode {
        Some(m) => safe_value(m.as_str()),
        None => true,
    };
    safe_uci_identifier(b.id.as_str()) && valid_section(b.section.as_str(), "wifi-device") && same(
        b.id.as_str(),
        b.section.as_str(),
    ) && b.present_options.len() <= MAX_PRESENT_OPTIONS && identifiers(&b.present_options)
        && safe_value(b.band_value.as_str()) && mode_safe
}

fn validate_bindings(bindings: &Vec<OpenWrtWirelessObjectBinding>) -> (r: Result<
    (),
    WirelessRenderError,
>)
    ensures
        r == (if bindings@.len() > MAX_BINDINGS {
            Err(WirelessRenderError::Capacity)
        } else {
            bindings_valid(views(bindings@), 0)
        }),
{
    if bindings.len() > MAX_BINDINGS {
        return Err(WirelessRenderError::Capacity);
    }
    let ghost all = views(bindings@);
    let mut i: usize = 0;
    while i < bindings.len()
        invariant
            i <= bindings@.len(),
            bindings@.len() <= MAX_BINDINGS,
            all == views(bindings@),
            bindings_valid(all, i as int) == bindings_valid(all, 0),
        decreases bindings@.len() - i,
    {
        assert(all[i as int] == bindings@[i as int]@);
        if !safe_binding(&bindings[i]) {
            return Err(WirelessRenderError::UnsafeBinding);
        }
        let mut j: usize = 0;
        while j < i
            invariant
                j <= i < bindings@.len(),
                bindings@.len() <= MAX_BINDINGS,
                all == views(bindings@),
                bindings_valid(all, i as int) == bindings_valid(all, 0),
                binding_safe(all[i as int]),
                forall|k: int| 0 <= k < j ==> (#[trigger] all[k]).id != all[i as int].id,
            decreases i - j,
        {
            assert(all[j as int] == bindings@[j as int]@);
            assert(all[i as int] == bindings@[i as int]@);
            if same(bindings[j].id.as_str(), bindings[i].id.as_str()) {
                return Err(WirelessRenderError::DuplicateBinding);
            }
            j = j + 1;
        }
        j = 0;
        while j < i
            invariant
                j <= i < bindings@.len(),
                bindings@.len() <= MAX_BINDINGS,
                all == views(bindings@),
                bindings_valid(all, i as int) == bindings_valid(all, 0),
                binding_safe(all[i as int]),
                forall|k: int| 0 <= k < i ==> (#[trigger] all[k]).id != all[i as int].id,
                forall|k: int| 0 <= k < j ==> (#[trigger] all[k]).section != all[i as int].section,
            decreases i - j,
        {
            assert(all[j as int] == bindings@[j as int]@);
            assert(all[i as int] == bindings@[i as int]@);
            if same(bindings[j].section.as_str(), bindings[i].section.as_str()) {
                return Err(WirelessRenderError::DuplicateSection);
            }
            j = j + 1;
        }
        i = i + 1;
    }
    Ok(())
}

fn distinct_ids(objects: &Vec<WirelessObject>) -> (r: bool)
    ensures
        r == ids_distinct(views(objects@)),
{
    let ghost all = views(objects@);
    let mut i: usize = 0;
    while i < objects.len()
        invariant
            i <= objects@.len(),
            all == views(objects@),
            forall|a: int, b: int|
                0 <= a < b < i ==> (#[trigger] all[a]).id() != (#[trigger] all[b]).id(),
        decreases objects@.len() - i,
    {
        assert(all[i as int] == objects@[i as int]@);
        let mut j: usize = 0;
        while j < i
            invariant
                j <= i < objects@.len(),
                all == views(objects@),
                forall|a: int| 0 <= a < j ==> (#[trigger] all[a]).id() != all[i as int].id(),
            decreases i - j,
        {
            assert(all[j as int] == objects@[j as int]@);
            assert(all[i as int] == objects@[i as int]@);
            if same(objects[j].id(), objects[i].id()) {
                return false;
            }
            j = j + 1;
        }
        i = i + 1;
    }
    true
}

fn touched(changes: &Vec<WirelessPlannedChange>, i: usize) -> (r: bool)
    requires
        i < changes@.len(),
    ensures
        r == touched_before(views(changes@), i as int),
{
    let ghost all = views(changes@);
    let mut j: usize = 0;
    while j < i
        invariant
            j <= i < changes@.len(),
            all == views(changes@),
            forall|k: int|
                0 <= k < j ==> (#[trigger] all[k]).before.id() != all[i as int].before.id(),
        decreases i - j,
    {
        assert(all[j as int] == changes@[j as int]@);
        assert(all[i as int] == changes@[i as int]@);
        if same(changes[j].before.id(), changes[i].before.id()) {
            return true;
        }
        j = j + 1;
    }
    false
}

fn is_stored(objects: &Vec<WirelessObject>, before: &WirelessObject) -> (r: bool)
    ensures
        r == (stored(views(objects@), before@.id()) == Some(before@)),
{
    let at: usize = find_radio(objects, before.id());
    if at < objects.len() {
        assert(views(objects@)[at as int] == objects@[at as int]@);
        objects[at].alike(before)
    } else {
        false
    }
}

fn validate_change(
    changes: &Vec<WirelessPlannedChange>,
    objects: &Vec<WirelessObject>,
    i: usize,
) -> (r: Result<(), WirelessRenderError>)
    requires
        i < changes@.len(),
    ensures
        r == change_matches(views(changes@), views(objects@), i as int),
{
    let c = &changes[i];
    assert(views(changes@)[i as int] == c@);
    if !c.before_checks.valid || !c.after_checks.valid || c.before_checks.digest.is_none()
        || c.after_checks.digest.is_none() {
        return Err(WirelessRenderError::InvalidObject);
    }
    if touched(changes, i) || c.diff.object.domain != ConfigDomain::Wireless || !same(
        c.diff.object.kind.as_str(),
        "radio",
    ) || !same(c.diff.object.id.as_str(), c.before.id()) || c.diff.object.ownership
        != ObjectOwnership::PlatformNative || !same_opt(
        &c.diff.object.expected_version,
        &c.before_checks.digest,
    ) || c.diff.operation != ChangeOperation::Update || !same_opt(
        &c.diff.before_digest,
        &c.before_checks.digest,
    ) || !same_opt(&c.diff.after_digest, &c.after_checks.digest) || !same(
        c.before.id(),
        c.after.id(),
    ) || !is_stored(objects, &c.before) {
        return Err(WirelessRenderError::PlanMismatch);
    }
    Ok(())
}

fn validate_plan_against_snapshot(
    plan: &WirelessMutationPlan,
    objects: &Vec<WirelessObject>,
) -> (r: Result<(), WirelessRenderError>)
    ensures
        r == plan_matches(plan@, views(objects@)),
{
    if plan.risk != RiskLevel::R3 || plan.changes.len() == 0 || plan.changes.len() > MAX_CHANGES {
        return Err(WirelessRenderError::PlanMismatch);
    }
    if !distinct_ids(objects) {
        return Err(WirelessRenderError::DuplicateInventoryObject);
    }
    let mut i: usize = 0;
    while i < plan.changes.len()
        invariant
            i <= plan.changes@.len(),
            plan.risk == RiskLevel::R3,
            0 < plan.changes@.len() <= MAX_CHANGES,
            ids_distinct(views(objects@)),
            changes_match(views(plan.changes@), views(objects@), i as int) == changes_match(
                views(plan.changes@),
                views(objects@),
                0,
            ),
        decreases plan.changes@.len() - i,
    {
        match validate_change(&plan.changes, objects, i) {
            Ok(()) => {},
            Err(e) => {
                return Err(e);
            },
        }
        i = i + 1;
    }
    Ok(())
}

fn family_supports(
    family: OpenWrtWirelessHtModeFamily,
    band: WirelessBand,
    width: WirelessChannelWidth,
) -> (r: bool)
    ensures
        r == family_fits(family, band, width),
{
    if width == WirelessChannelWidth::Auto {
        return true;
    }
    match family {
        OpenWrtWirelessHtModeFamily::Ht => band != WirelessBand::Ghz6 && (width
            == WirelessChannelWidth::Mhz20 || width == WirelessChannelWidth::Mhz40),
        OpenWrtWirelessHtModeFamily::Vht => band == WirelessBand::Ghz5,
        OpenWrtWirelessHtModeFamily::He => true,
        OpenWrtWirelessHtModeFamily::Eht => true,
    }
}

fn validate_backend_semantics(
    binding: &OpenWrtWirelessObjectBinding,
    before: &WirelessRadioConfig,
    after: &WirelessRadioConfig,
) -> (r: bool)
    ensures
        r == is_representable(binding@, before@, after@),
{
    if !same(before.id.as_str(), binding.id.as_str()) || before.ownership
        != ObjectOwnership::PlatformNative || after.ownership != ObjectOwnership::PlatformNative || (
    binding.band_encoding == OpenWrtWirelessBandEncoding::HwMode && after.band
        == WirelessBand::Ghz6) {
        return false;
    }
    match binding.htmode_family {
        Some(family) => family_supports(family, after.band, after.width),
        None => true,
    }
}

fn encode_band(encoding: OpenWrtWirelessBandEncoding, band: WirelessBand) -> (r: Option<
    &'static str,
>)
    ensures
        text_view(r) == band_text(encoding, band),
{
    match (encoding, band) {
        (OpenWrtWirelessBandEncoding::Band, WirelessBand::Ghz2) => Some("2g"),
        (OpenWrtWirelessBandEncoding::Band, WirelessBand::Ghz5) => Some("5g"),
        (OpenWrtWirelessBandEncoding::Band, WirelessBand::Ghz6) => Some("6g"),
        (OpenWrtWirelessBandEncoding::HwMode, WirelessBand::Ghz2) => Some("11g"),
        (OpenWrtWirelessBandEncoding::HwMode, WirelessBand::Ghz5) => Some("11a"),
        (OpenWrtWirelessBandEncoding::HwMode, WirelessBand::Ghz6) => None,
    }
}

fn default_htmode_family(band: WirelessBand) -> (r: OpenWrtWirelessHtModeFamily)
    ensures
        r == default_family(band),
{
    match band {
        WirelessBand::Ghz2 => OpenWrtWirelessHtModeFamily::Ht,
        WirelessBand::Ghz5 => OpenWrtWirelessHtModeFamily::Vht,
        WirelessBand::Ghz6 => OpenWrtWirelessHtModeFamily::He,
    }
}

/// The channel mode that a radio is written with.
pub fn encode_htmode(
    binding: &OpenWrtWirelessObjectBinding,
    before: &WirelessRadioConfig,
    after: &WirelessRadioConfig,
) -> (r: Result<Option<String>, WirelessRenderError>)
    ensures
        match r {
            Ok(m) => mode_text(binding@, before@, after@) == Ok::<
                Option<Seq<char>>,
                WirelessRenderError,
            >(opt(m)),
            Err(e) => mode_text(binding@, before@, after@) == Err::<
                Option<Seq<char>>,
                WirelessRenderError,
            >(e),
        },
{
    if after.width == WirelessChannelWidth::Auto {
        return Ok(None);
    }
    if before.width == after.width {
        match &binding.htmode {
            Some(current) => {
                return Ok(Some(current.clone()));
            },
            None => {},
        }
    }
    let family = match binding.htmode_family {
        Some(f) => f,
        None => default_htmode_family(after.band),
    };
    if !family_supports(family, after.band, after.width) {
        return Err(WirelessRenderError::UnsupportedSemantics);
    }
    let prefix = match family {
        OpenWrtWirelessHtModeFamily::Ht => "HT",
        OpenWrtWirelessHtModeFamily::Vht => "VHT",
        OpenWrtWirelessHtModeFamily::He => "HE",
        OpenWrtWirelessHtModeFamily::Eht => "EHT",
    };
    let mut mode = prefix.to_owned();
    match after.width {
        WirelessChannelWidth::Auto => {},
        WirelessChannelWidth::Mhz20 => mode.append("20"),
        WirelessChannelWidth::Mhz40 => mode.append("40"),
        WirelessChannelWidth::Mhz80 => mode.append("80"),
        WirelessChannelWidth::Mhz160 => mode.append("160"),
    }
    Ok(Some(mode))
}

/// The batch behind a step that succeeded, or the error.
pub open spec fn batch_result(
    r: Result<(), WirelessRenderError>,
    batch: Seq<char>,
) -> Result<Seq<char>, WirelessRenderError> {
    match r {
        Ok(()) => Ok(batch),
        Err(e) => Err(e),
    }
}

proof fn lemma_safe_is_quotable(s: Seq<char>)
    requires
        is_safe_value(s),
    ensures
        is_quotable(s),
{
}

fn render_option(batch: &mut String, section: &str, name: &str, value: &str) -> (r: Result<
    (),
    WirelessRenderError,
>)
    ensures
        batch_result(r, final(batch)@) == with_option(
            Ok(old(batch)@),
            section@,
            name@,
            Some(value@),
        ),
{
    if !safe_uci_identifier(section) || !safe_uci_identifier(name) || !safe_value(value) {
        return Err(WirelessRenderError::UnsupportedValue);
    }
    proof {
        lemma_safe_is_quotable(value@);
    }
    let _ = append_assign(batch, "set", "wireless", section, name, value);
    Ok(())
}

fn render_radio_update(
    batch: &mut String,
    binding: &OpenWrtWirelessObjectBinding,
    before: &WirelessRadioConfig,
    after: &WirelessRadioConfig,
) -> (r: Result<(), WirelessRenderError>)
    ensures
        batch_result(r, final(batch)@) == radio_updated(
            old(batch)@,
            binding@,
            before@,
            after@,
        ),
{
    if !validate_backend_semantics(binding, before, after) {
        return Err(WirelessRenderError::UnsupportedSemantics);
    }
    let section = binding.section.as_str();
    let band_value = if before.band == after.band {
        binding.band_value.as_str()
    } else {
        match encode_band(binding.band_encoding, after.band) {
            Some(b) => b,
            None => {
                return Err(WirelessRenderError::UnsupportedSemantics);
            },
        }
    };
    let names = ["disabled", "band", "hwmode", "channel", "htmode", "country", "txpower"];
    assert(views(names@) =~= mutable_options());
    append_cleared(batch, "wireless", section, &binding.present_options, &names);
    let band_option = match binding.band_encoding {
        OpenWrtWirelessBandEncoding::Band => "band",
        OpenWrtWirelessBandEncoding::HwMode => "hwmode",
    };
    match render_option(batch, section, "disabled", bool_value(!after.enabled).as_str()) {
        Ok(()) => {},
        Err(e) => {
            return Err(e);
        },
    }
    match render_option(batch, section, band_option, band_value) {
        Ok(()) => {},
        Err(e) => {
            return Err(e);
        },
    }
    let channel = match after.channel {
        WirelessChannel::Auto => "auto".to_owned(),
        WirelessChannel::Fixed { channel } => decimal_text(channel as u64),
    };
    match render_option(batch, section, "channel", channel.as_str()) {
        Ok(()) => {},
        Err(e) => {
            return Err(e);
        },
    }
    match encode_htmode(binding, before, after) {
        Err(e) => {
            return Err(e);
        },
        Ok(None) => {},
        Ok(Some(mode)) => match render_option(batch, section, "htmode", mode.as_str()) {
            Ok(()) => {},
            Err(e) => {
                return Err(e);
            },
        },
    }
    match &after.country {
        None => {},
        Some(country) => match render_option(batch, section, "country", country.as_str()) {
            Ok(()) => {},
            Err(e) => {
                return Err(e);
            },
        },
    }
    match after.tx_power_dbm {
        None => {},
        Some(power) => match render_option(
            batch,
            section,
            "txpower",
            decimal_text(power as u64).as_str(),
        ) {
            Ok(()) => {},
            Err(e) => {
                return Err(e);
            },
        },
    }
    Ok(())
}

fn binding_for<'a>(bindings: &'a Vec<OpenWrtWirelessObjectBinding>, id: &str) -> (r: Option<
    &'a OpenWrtWirelessObjectBinding,
>)
    ensures
        match r {
            Some(b) => binding_from(views(bindings@), id@, 0) == Some(b@),
            None => binding_from(views(bindings@), id@, 0) is None,
        },
{
    let mut i: usize = 0;
    while i < bindings.len()
        invariant
            i <= bindings@.len(),
            binding_from(views(bindings@), id@, i as int) == binding_from(
                views(bindings@),
                id@,
                0,
            ),
        decreases bindings@.len() - i,
    {
        if same(bindings[i].id.as_str(), id) {
            return Some(&bindings[i]);
        }
        i = i + 1;
    }
    None
}

/// Renders an approved plan against the snapshot it was made for.
///
/// The batch touches only the supported options of the bound radio sections.
pub fn render_openwrt_wireless_stage_from_snapshot(
    plan: &WirelessMutationPlan,
    snapshot: &OpenWrtWirelessInventorySnapshot,
) -> (r: Result<OpenWrtWirelessStage, WirelessRenderError>)
    ensures
        vres(r) == wireless_stage(plan@, snapshot@),
{
    match validate_plan_against_snapshot(plan, &snapshot.inventory.objects) {
        Ok(()) => {},
        Err(e) => {
            return Err(e);
        },
    }
    match validate_bindings(&snapshot.bindings) {
        Ok(()) => {},
        Err(e) => {
            return Err(e);
        },
    }
    let mut batch = String::new();
    let ghost changes = plan@.changes;
    let ghost bindings = snapshot@.bindings;
    let mut i: usize = 0;
    while i < plan.changes.len()
        invariant
            i <= plan.changes@.len(),
            changes == views(plan.changes@),
            bindings == views(snapshot.bindings@),
            plan_matches(plan@, snapshot@.inventory.objects) is Ok,
            snapshot@.bindings == bindings,
            plan@.changes == changes,
            bindings.len() <= MAX_BINDINGS,
            bindings_valid(bindings, 0) is Ok,
            drafted(batch@, changes, bindings, i as int) == drafted(
                Seq::empty(),
                changes,
                bindings,
                0,
            ),
        decreases plan.changes@.len() - i,
    {
        assert(changes[i as int] == plan.changes@[i as int]@);
        let change = &plan.changes[i];
        let binding = match binding_for(&snapshot.bindings, change.before.id()) {
            Some(b) => b,
            None => {
                return Err(WirelessRenderError::MissingBinding);
            },
        };
        let before = match &change.before {
            WirelessObject::Radio(r) => r,
        };
        let after = match &change.after {
            WirelessObject::Radio(r) => r,
        };
        match render_radio_update(&mut batch, binding, before, after) {
            Ok(()) => {},
            Err(e) => {
                return Err(e);
            },
        }
        if byte_length(batch.as_str()) > MAX_BATCH_BYTES {
            return Err(WirelessRenderError::Capacity);
        }
        i = i + 1;
    }
    batch.append("commit wireless\n");
    let mut validations: Vec<OpenWrtWirelessValidation> = Vec::new();
    validations.push(OpenWrtWirelessValidation::UciExport);
    assert(validations@ =~= seq![OpenWrtWirelessValidation::UciExport]);
    Ok(
        OpenWrtWirelessStage {
            uci_batch: batch,
            validations,
            activation_program: "/sbin/wifi",
            activation_argument: "reload",
        },
    )
}

} // verus!
