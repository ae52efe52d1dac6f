//! Radios and plans for them.

use vstd::prelude::*;

use crate::change::{ObjectChecks, ObjectChecksView, ObjectDiff, ObjectDiffView, ObjectOwnership, RiskLevel};
use crate::items::{copy_list, copy_opt, same_list, same_opt, Item};
use crate::text::same;
use crate::views::{opt, views};

verus! {

/// The band of a radio.
#[derive(Debug, Clone, Copy, PartialEq, Eq, Structural)]
pub enum WirelessBand {
    Ghz2,
    Ghz5,
    Ghz6,
}

impl View for WirelessBand {
    type V = WirelessBand;

    open spec fn view(&self) -> WirelessBand {
        *self
    }
}

impl Item for WirelessBand {
    fn alike(&self, other: &Self) -> (r: bool) {
        *self == *other
    }

    fn twin(&self) -> (r: Self) {
        *self
    }
}

/// The width of a channel.
#[derive(Debug, Clone, Copy, PartialEq, Eq, Structural)]
pub enum WirelessChannelWidth {
    Auto,
    Mhz20,
    Mhz40,
    Mhz80,
    Mhz160,
}

impl View for WirelessChannelWidth {
    type V = WirelessChannelWidth;

    open spec fn view(&self) -> WirelessChannelWidth {
        *self
    }
}

impl Item for WirelessChannelWidth {
    fn alike(&self, other: &Self) -> (r: bool) {
        *self == *other
    }

    fn twin(&self) -> (r: Self) {
        *self
    }
}

/// The channel of a radio.
#[derive(Debug, Clone, Copy, PartialEq, Eq, Structural)]
pub enum WirelessChannel {
    Auto,
    Fixed { channel: u16 },
}

impl View for WirelessChannel {
    type V = WirelessChannel;

    open spec fn view(&self) -> WirelessChannel {
        *self
    }
}

impl Item for WirelessChannel {
    fn alike(&self, other: &Self) -> (r: bool) {
        *self == *other
    }

    fn twin(&self) -> (r: Self) {
        *self
    }
}

/// A physical radio.
#[derive(Debug, Clone, PartialEq, Eq)]
pub struct WirelessRadioConfig {
    pub id: String,
    pub ownership: ObjectOwnership,
    pub enabled: bool,
    pub band: WirelessBand,
    pub channel: WirelessChannel,
    pub width: WirelessChannelWidth,
    pub country: Option<String>,
    pub tx_power_dbm: Option<u8>,
}

#[verifier::ext_equal]
pub struct WirelessRadioConfigView {
    pub id: Seq<char>,
    pub ownership: ObjectOwnership,
    pub enabled: bool,
    pub band: WirelessBand,
    pub channel: WirelessChannel,
    pub width: WirelessChannelWidth,
    pub country: Option<Seq<char>>,
    pub tx_power_dbm: Option<u8>,
}

impl View for WirelessRadioConfig {
    type V = WirelessRadioConfigView;

    open spec fn view(&self) -> WirelessRadioConfigView {
        WirelessRadioConfigView {
            id: self.id@,
            ownership: self.ownership,
            enabled: self.enabled,
            band: self.band,
            channel: self.channel,
            width: self.width,
            country: opt(self.country),
            tx_power_dbm: opt(self.tx_power_dbm),
        }
    }
}

impl Item for WirelessRadioConfig {
    fn alike(&self, other: &Self) -> (r: bool) {
        same(self.id.as_str(), other.id.as_str())
            && self.ownership == other.ownership
            && self.enabled == other.enabled
            && self.band == other.band
            && self.channel == other.channel
            && self.width == other.width
            && same_opt(&self.country, &other.country)
            && same_opt(&self.tx_power_dbm, &other.tx_power_dbm)
    }

    fn twin(&self) -> (r: Self) {
        WirelessRadioConfig {
            id: self.id.clone(),
            ownership: self.ownership,
            enabled: self.enabled,
            band: self.band,
            channel: self.channel,
            width: self.width,
            country: copy_opt(&self.country),
            tx_power_dbm: copy_opt(&self.tx_power_dbm),
        }
    }
}

/// A wireless object.
#[derive(Debug, Clone, PartialEq, Eq)]
pub enum WirelessObject {
    Radio(WirelessRadioConfig),
}

#[verifier::ext_equal]
pub enum WirelessObjectView {
    Radio(WirelessRadioConfigView),
}

impl View for WirelessObject {
    type V = WirelessObjectView;

    open spec fn view(&self) -> WirelessObjectView {
        match self {
            WirelessObject::Radio(x) => WirelessObjectView::Radio(x@),
        }
    }
}

impl Item for WirelessObject {
    fn alike(&self, other: &Self) -> (r: bool) {
        match (self, other) {
            (WirelessObject::Radio(x), WirelessObject::Radio(y)) => x.alike(y),
        }
    }

    fn twin(&self) -> (r: Self) {
        match self {
            WirelessObject::Radio(x) => WirelessObject::Radio(x.twin()),
        }
    }
}

impl WirelessObjectView {
    /// The name of the object's kind.
    pub open spec fn kind(self) -> Seq<char> {
        match self {
            WirelessObjectView::Radio(_) => "radio"@,
        }
    }

    pub open spec fn id(self) -> Seq<char> {
        match self {
            WirelessObjectView::Radio(x) => x.id,
        }
    }

    pub open spec fn ownership(self) -> ObjectOwnership {
        match self {
            WirelessObjectView::Radio(x) => x.ownership,
        }
    }
}

impl WirelessObject {
    /// The name of the object's kind.
    pub fn kind(&self) -> (r: &'static str)
        ensures
            r@ == self@.kind(),
    {
        match self {
            WirelessObject::Radio(_) => "radio",
        }
    }

    pub fn id(&self) -> (r: &str)
        ensures
            r@ == self@.id(),
    {
        match self {
            WirelessObject::Radio(x) => x.id.as_str(),
        }
    }

    pub fn ownership(&self) -> (r: ObjectOwnership)
        ensures
            r == self@.ownership(),
    {
        match self {
            WirelessObject::Radio(x) => x.ownership,
        }
    }
}

/// The radios of a platform.
#[derive(Debug, Clone, PartialEq, Eq)]
pub struct WirelessInventory {
    pub objects: Vec<WirelessObject>,
}

#[verifier::ext_equal]
pub struct WirelessInventoryView {
    pub objects: Seq<WirelessObjectView>,
}

impl View for WirelessInventory {
    type V = WirelessInventoryView;

    open spec fn view(&self) -> WirelessInventoryView {
        WirelessInventoryView {
            objects: views(self.objects@),
        }
    }
}

impl Item for WirelessInventory {
    fn alike(&self, other: &Self) -> (r: bool) {
        same_list(&self.objects, &other.objects)
    }

    fn twin(&self) -> (r: Self) {
        WirelessInventory {
            objects: copy_list(&self.objects),
        }
    }
}

/// One planned change of a radio, with what the object model says of both sides.
#[derive(Debug, Clone, PartialEq, Eq)]
pub struct WirelessPlannedChange {
    pub before: WirelessObject,
    pub after: WirelessObject,
    pub diff: ObjectDiff,
    pub before_checks: ObjectChecks,
    pub after_checks: ObjectChecks,
}

#[verifier::ext_equal]
pub struct WirelessPlannedChangeView {
    pub before: WirelessObjectView,
    pub after: WirelessObjectView,
    pub diff: ObjectDiffView,
    pub before_checks: ObjectChecksView,
    pub after_checks: ObjectChecksView,
}

impl View for WirelessPlannedChange {
    type V = WirelessPlannedChangeView;

    open spec fn view(&self) -> WirelessPlannedChangeView {
        WirelessPlannedChangeView {
            before: self.before@,
            after: self.after@,
            diff: self.diff@,
            before_checks: self.before_checks@,
            after_checks: self.after_checks@,
        }
    }
}

impl Item for WirelessPlannedChange {
    fn alike(&self, other: &Self) -> (r: bool) {
        self.before.alike(&other.before)
            && self.after.alike(&other.after)
            && self.diff.alike(&other.diff)
            && self.before_checks.alike(&other.before_checks)
            && self.after_checks.alike(&other.after_checks)
    }

    fn twin(&self) -> (r: Self) {
        WirelessPlannedChange {
            before: self.before.twin(),
            after: self.after.twin(),
            diff: self.diff.twin(),
            before_checks: self.before_checks.twin(),
            after_checks: self.after_checks.twin(),
        }
    }
}

/// A plan for the radios.
#[derive(Debug, Clone, PartialEq, Eq)]
pub struct WirelessMutationPlan {
    pub risk: RiskLevel,
    pub changes: Vec<WirelessPlannedChange>,
}

#[verifier::ext_equal]
pub struct WirelessMutationPlanView {
    pub risk: RiskLevel,
    pub changes: Seq<WirelessPlannedChangeView>,
}

impl View for WirelessMutationPlan {
    type V = WirelessMutationPlanView;

    open spec fn view(&self) -> WirelessMutationPlanView {
        WirelessMutationPlanView {
            risk: self.risk,
            changes: views(self.changes@),
        }
    }
}

impl Item for WirelessMutationPlan {
    fn alike(&self, other: &Self) -> (r: bool) {
        self.risk == other.risk
            && same_list(&self.changes, &other.changes)
    }

    fn twin(&self) -> (r: Self) {
        WirelessMutationPlan {
            risk: self.risk,
            changes: copy_list(&self.changes),
        }
    }
}

} // verus!
