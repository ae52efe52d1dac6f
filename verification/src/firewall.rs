//! Bounded firewall write adapters.

use vstd::prelude::*;

use vstd::string::*;

use crate::change::{ChangeOperation, ObjectChecks};
use crate::firewall_error::FirewallRenderErrorView;
pub use crate::firewall_error::FirewallRenderError;
use crate::firewall_inventory::{
    bind, fallback_id, find_object, firewall_binding, object_from, position_id,
    OpenWrtFirewallInventorySnapshot, OpenWrtObjectBindingView,
};
pub use crate::firewall_inventory::OpenWrtObjectBinding;
use crate::firewall_model::{
    FirewallDirection, FirewallFamily, FirewallFilterRule, FirewallFilterRuleView, FirewallInventory,
    FirewallLogLevel, FirewallMatch, FirewallMatchView, FirewallMutationPlan, FirewallNatKind, FirewallNatRule,
    FirewallNatRuleView, FirewallObject, FirewallObjectView, FirewallPlannedChange, FirewallPlannedChangeView,
    FirewallProtocol, FirewallSetEntry, FirewallSetEntryView, FirewallVerdict, PortRange,
};
use crate::firewall_uci::{
    is_section, package_sections, parse_uci_show, text_view, valid_section, UciSection, UciSectionView,
};
use crate::items::{copy_list, same_opt, Item};
use crate::net::{network_format, IpNetwork};
use crate::network_openwrt::{all_distinct, verdict_at};
use crate::network_stage::{address_of, all_identifiers, identifiers, is_safe_id, safe_id};
use crate::parse::map_all;
use crate::platform::{FirewallBackend, PlatformCapabilities, PlatformCapabilitiesView, PlatformKind};
use crate::text::{
    byte_len, byte_length, chars_of, decimal, decimal_text, holds, lower_all, lower_text, piece, same, string_of,
};
use crate::uci_render::{
    append_cleared, append_create, append_delete, append_section, bool_value, cleared_text, create_line,
    delete_line, digest_like, first_of, flag, is_digest, push_address, push_filled_list, push_first, push_list,
    push_option, push_text, put_list, put_some, section_text, ListsView, OptionsView, RenderedList,
    RenderedOption, RenderedSection, RenderedSectionView,
};
use crate::views::{group_views, lvres, opt, views, vres};

verus! {

broadcast use group_views;

pub const MAX_BINDINGS: usize = 256;

pub const MAX_PRESENT_OPTIONS: usize = 64;

pub const MAX_BATCH_BYTES: usize = 131072;

pub const MAX_CHANGES: usize = 32;

/// The object that a change is about.
pub open spec fn subject(c: FirewallPlannedChangeView) -> Option<FirewallObjectView> {
    match c.after {
        Some(o) => Some(o),
        None => c.before,
    }
}

pub open spec fn subject_valid(c: FirewallPlannedChangeView) -> bool {
    match c.after {
        Some(_) => c.after_checks.valid,
        None => c.before_checks.valid,
    }
}

/// The object of an identity in an inventory.
pub open spec fn stored(objects: Seq<FirewallObjectView>, kind: Seq<char>, id: Seq<char>) -> Option<
    FirewallObjectView,
> {
    let at = object_from(objects, kind, id, 0);
    if at < objects.len() {
        Some(objects[at])
    } else {
        None
    }
}

pub open spec fn same_subject(a: FirewallPlannedChangeView, b: FirewallPlannedChangeView) -> bool {
    subject(a) is Some && subject(b) is Some && subject(a)->Some_0.kind() == subject(
        b,
    )->Some_0.kind() && subject(a)->Some_0.id() == subject(b)->Some_0.id()
}

/// Whether a change before `i` is about the same object as the change at `i`.
pub open spec fn touched_before(changes: Seq<FirewallPlannedChangeView>, i: int) -> bool {
    exists|j: int| 0 <= j < i && same_subject(#[trigger] changes[j], changes[i])
}

/// Whether a change agrees with its own metadata and with the inventory.
pub open spec fn change_matches(
    changes: Seq<FirewallPlannedChangeView>,
    objects: Seq<FirewallObjectView>,
    i: int,
) -> Result<(), FirewallRenderErrorView> {
    let c = changes[i];
    match subject(c) {
        None => Err(FirewallRenderErrorView::PlanMismatch),
        Some(o) => {
            let held = stored(objects, o.kind(), o.id());
            if touched_before(changes, i) || c.diff.object.kind != o.kind() || c.diff.object.id
                != o.id() || c.diff.object.ownership != o.ownership() {
                Err(FirewallRenderErrorView::PlanMismatch)
            } else if (c.before is Some && c.before_checks.digest is None) || (c.after is Some
                && c.after_checks.digest is None) {
                Err(FirewallRenderErrorView::InvalidObject)
            } else if c.diff.before_digest != (if c.before is Some {
                c.before_checks.digest
            } else {
                None
            }) || c.diff.after_digest != (if c.after is Some {
                c.after_checks.digest
            } else {
                None
            }) || c.diff.object.expected_version != c.diff.before_digest {
                Err(FirewallRenderErrorView::PlanMismatch)
            } else if match c.diff.operation {
                ChangeOperation::Create => c.before is None && c.after is Some && held is None,
                ChangeOperation::Update => c.before == held && c.after is Some,
                ChangeOperation::Move => c.before == held && c.after is Some,
                ChangeOperation::Delete => c.before == held && c.after is None,
            } {
                Ok(())
            } else {
                Err(FirewallRenderErrorView::PlanMismatch)
            }
        },
    }
}

/// Whether the changes from `i` on agree with their metadata and the inventory.
pub open spec fn changes_match(
    changes: Seq<FirewallPlannedChangeView>,
    objects: Seq<FirewallObjectView>,
    i: int,
) -> Result<(), FirewallRenderErrorView>
    decreases changes.len() - i,
{
    if i < 0 || i >= changes.len() {
        Ok(())
    } else {
        match change_matches(changes, objects, i) {
            Err(e) => Err(e),
            Ok(()) => changes_match(changes, objects, i + 1),
        }
    }
}

pub open spec fn identities_distinct(objects: Seq<FirewallObjectView>) -> bool {
    forall|a: int, b: int|
        0 <= a < b < objects.len() ==> !((#[trigger] objects[a]).kind() == (
        #[trigger] objects[b]).kind() && objects[a].id() == objects[b].id())
}

pub open spec fn plan_matches(
    changes: Seq<FirewallPlannedChangeView>,
    objects: Seq<FirewallObjectView>,
) -> Result<(), FirewallRenderErrorView> {
    if changes.len() == 0 || changes.len() > MAX_CHANGES {
        Err(FirewallRenderErrorView::PlanMismatch)
    } else if !identities_distinct(objects) {
        Err(FirewallRenderErrorView::DuplicateInventoryObject)
    } else {
        changes_match(changes, objects, 0)
    }
}

pub open spec fn binding_safe(b: OpenWrtObjectBindingView) -> bool {
    is_kind(b.kind) && is_safe_id(b.id) && is_type_of(b.section_type, b.kind) && is_section(
        b.section,
        b.section_type,
    ) && b.present_options.len() <= MAX_PRESENT_OPTIONS && all_identifiers(b.present_options)
}

/// Whether the bindings from `i` on are safe and clash with none before them.
pub open spec fn bindings_valid(
    bindings: Seq<OpenWrtObjectBindingView>,
    i: int,
) -> Result<(), FirewallRenderErrorView>
    decreases bindings.len() - i,
{
    if i < 0 || i >= bindings.len() {
        Ok(())
    } else if !binding_safe(bindings[i]) {
        Err(FirewallRenderErrorView::UnsafeBinding)
    } else if exists|j: int|
        0 <= j < i && (#[trigger] bindings[j]).kind == bindings[i].kind && bindings[j].id
            == bindings[i].id {
        Err(FirewallRenderErrorView::DuplicateBinding)
    } else if exists|j: int| 0 <= j < i && (#[trigger] bindings[j]).section == bindings[i].section {
        Err(FirewallRenderErrorView::DuplicateSection)
    } else {
        bindings_valid(bindings, i + 1)
    }
}

/// The first binding of an object from `i` on.
pub open spec fn binding_from(
    bindings: Seq<OpenWrtObjectBindingView>,
    kind: Seq<char>,
    id: Seq<char>,
    i: int,
) -> Option<OpenWrtObjectBindingView>
    decreases bindings.len() - i,
{
    if i < 0 || i >= bindings.len() {
        None
    } else if bindings[i].kind == kind && bindings[i].id == id {
        Some(bindings[i])
    } else {
        binding_from(bindings, kind, id, i + 1)
    }
}

pub open spec fn sections_reserved(
    bindings: Seq<OpenWrtObjectBindingView>,
    reserved: Seq<Seq<char>>,
) -> bool {
    forall|i: int| 0 <= i < bindings.len() ==> reserved.contains((#[trigger] bindings[i]).section)
}

/// The batch behind a step that succeeded, or the error.
pub open spec fn batch_result(
    r: Result<(), FirewallRenderError>,
    batch: Seq<char>,
) -> Result<Seq<char>, FirewallRenderErrorView> {
    match r {
        Ok(()) => Ok(batch),
        Err(e) => Err(e@),
    }
}

/// The draft behind a step that succeeded, or the error.
pub open spec fn draft_result(
    r: Result<(), FirewallRenderError>,
    d: StageDraftView,
) -> Result<StageDraftView, FirewallRenderErrorView> {
    match r {
        Ok(()) => Ok(d),
        Err(e) => Err(e@),
    }
}

fn binding_for<'a>(
    bindings: &'a Vec<OpenWrtObjectBinding>,
    kind: &str,
    id: &str,
) -> (r: Option<&'a OpenWrtObjectBinding>)
    ensures
        match r {
            Some(b) => binding_from(views(bindings@), kind@, id@, 0) == Some(b@),
            None => binding_from(views(bindings@), kind@, id@, 0) is None,
        },
{
    let mut i: usize = 0;
    while i < bindings.len()
        invariant
            i <= bindings@.len(),
            binding_from(views(bindings@), kind@, id@, i as int) == binding_from(
                views(bindings@),
                kind@,
                id@,
                0,
            ),
        decreases bindings@.len() - i,
    {
        if same(bindings[i].kind.as_str(), kind) && same(bindings[i].id.as_str(), id) {
            return Some(&bindings[i]);
        }
        i = i + 1;
    }
    None
}

fn safe_binding(b: &OpenWrtObjectBinding) -> (r: bool)
    ensures
        r == binding_safe(b@),
{
    known_kind(b.kind.as_str()) && safe_id(b.id.as_str()) && valid_section_type(
        b.section_type.as_str(),
        b.kind.as_str(),
    ) && valid_section(b.section.as_str(), b.section_type.as_str()) && b.present_options.len()
        <= MAX_PRESENT_OPTIONS && identifiers(&b.present_options)
}

/// A result without a value, its error by its view.
pub open spec fn ures(r: Result<(), FirewallRenderError>) -> Result<(), FirewallRenderErrorView> {
    match r {
        Ok(()) => Ok(()),
        Err(e) => Err(e@),
    }
}

fn validate_bindings(bindings: &Vec<OpenWrtObjectBinding>) -> (r: Result<
    (),
    FirewallRenderError,
>)
    ensures
        ures(r) == (if bindings@.len() > MAX_BINDINGS {
            Err(FirewallRenderErrorView::Capacity)
        } else {
            bindings_valid(views(bindings@), 0)
        }),
{
    if bindings.len() > MAX_BINDINGS {
        return Err(FirewallRenderError::Capacity);
    }
    let ghost all = views(bindings@);
    let mut i: usize = 0;
    while i < bindings.len()
        invariant
            i <= bindings@.len(),
            bindings@.len() <= MAX_BINDINGS,
            all == views(bindings@),
            bindings_valid(all, i as int) == bindings_valid(all, 0),
        decreases bindings@.len() - i,
    {
        assert(all[i as int] == bindings@[i as int]@);
        if !safe_binding(&bindings[i]) {
            return Err(FirewallRenderError::UnsafeBinding);
        }
        let mut j: usize = 0;
        while j < i
            invariant
                j <= i < bindings@.len(),
                bindings@.len() <= MAX_BINDINGS,
                all == views(bindings@),
                bindings_valid(all, i as int) == bindings_valid(all, 0),
                binding_safe(all[i as int]),
                forall|k: int|
                    0 <= k < j ==> !((#[trigger] all[k]).kind == all[i as int].kind && all[k].id
                        == all[i as int].id),
            decreases i - j,
        {
            assert(all[j as int] == bindings@[j as int]@);
            assert(all[i as int] == bindings@[i as int]@);
            if same(bindings[j].kind.as_str(), bindings[i].kind.as_str()) && same(
                bindings[j].id.as_str(),
                bindings[i].id.as_str(),
            ) {
                return Err(FirewallRenderError::DuplicateBinding);
            }
            j = j + 1;
        }
        j = 0;
        while j < i
            invariant
                j <= i < bindings@.len(),
                bindings@.len() <= MAX_BINDINGS,
                all == views(bindings@),
                bindings_valid(all, i as int) == bindings_valid(all, 0),
                binding_safe(all[i as int]),
                forall|k: int|
                    0 <= k < i ==> !((#[trigger] all[k]).kind == all[i as int].kind && all[k].id
                        == all[i as int].id),
                forall|k: int| 0 <= k < j ==> (#[trigger] all[k]).section != all[i as int].section,
            decreases i - j,
        {
            assert(all[j as int] == bindings@[j as int]@);
            assert(all[i as int] == bindings@[i as int]@);
            if same(bindings[j].section.as_str(), bindings[i].section.as_str()) {
                return Err(FirewallRenderError::DuplicateSection);
            }
            j = j + 1;
        }
        i = i + 1;
    }
    Ok(())
}

fn bound_sections_reserved(
    bindings: &Vec<OpenWrtObjectBinding>,
    reserved: &Vec<String>,
) -> (r: bool)
    ensures
        r == sections_reserved(views(bindings@), views(reserved@)),
{
    let ghost all = views(bindings@);
    let mut i: usize = 0;
    while i < bindings.len()
        invariant
            i <= bindings@.len(),
            all == views(bindings@),
            forall|k: int|
                0 <= k < i ==> views(reserved@).contains((#[trigger] all[k]).section),
        decreases bindings@.len() - i,
    {
        assert(all[i as int] == bindings@[i as int]@);
        if !holds(reserved, bindings[i].section.as_str()) {
            return false;
        }
        i = i + 1;
    }
    true
}

fn distinct_identities(objects: &Vec<FirewallObject>) -> (r: bool)
    ensures
        r == identities_distinct(views(objects@)),
{
    let ghost all = views(objects@);
    let mut i: usize = 0;
    while i < objects.len()
        invariant
            i <= objects@.len(),
            all == views(objects@),
            forall|a: int, b: int|
                0 <= a < b < i ==> !((#[trigger] all[a]).kind() == (#[trigger] all[b]).kind()
                    && all[a].id() == all[b].id()),
        decreases objects@.len() - i,
    {
        assert(all[i as int] == objects@[i as int]@);
        let mut j: usize = 0;
        while j < i
            invariant
                j <= i < objects@.len(),
                all == views(objects@),
                forall|a: int|
                    0 <= a < j ==> !((#[trigger] all[a]).kind() == all[i as int].kind()
                        && all[a].id() == all[i as int].id()),
            decreases i - j,
        {
            assert(all[j as int] == objects@[j as int]@);
            assert(all[i as int] == objects@[i as int]@);
            if same(objects[j].kind(), objects[i].kind()) && same(objects[j].id(), objects[i].id()) {
                return false;
            }
            j = j + 1;
        }
        i = i + 1;
    }
    true
}

fn subject_of(change: &FirewallPlannedChange) -> (r: Option<&FirewallObject>)
    ensures
        match r {
            Some(o) => subject(change@) == Some(o@),
            None => subject(change@) is None,
        },
{
    match (&change.after, &change.before) {
        (Some(o), _) => Some(o),
        (None, Some(o)) => Some(o),
        (None, None) => None,
    }
}

fn subject_touched(changes: &Vec<FirewallPlannedChange>, i: usize) -> (r: bool)
    requires
        i < changes@.len(),
    ensures
        r == touched_before(views(changes@), i as int),
{
    let ghost all = views(changes@);
    let mut j: usize = 0;
    while j < i
        invariant
            j <= i < changes@.len(),
            all == views(changes@),
            forall|k: int| 0 <= k < j ==> !same_subject(#[trigger] all[k], all[i as int]),
        decreases i - j,
    {
        assert(all[j as int] == changes@[j as int]@);
        assert(all[i as int] == changes@[i as int]@);
        match (subject_of(&changes[j]), subject_of(&changes[i])) {
            (Some(a), Some(b)) => {
                if same(a.kind(), b.kind()) && same(a.id(), b.id()) {
                    assert(same_subject(all[j as int], all[i as int]));
                    return true;
                }
            },
            _ => {},
        }
        j = j + 1;
    }
    false
}

fn stored_matches(before: &Option<FirewallObject>, objects: &Vec<FirewallObject>, kind: &str, id: &str) -> (r:
    bool)
    ensures
        r == (opt(*before) == stored(views(objects@), kind@, id@)),
{
    let at: usize = find_object(objects, kind, id);
    if at < objects.len() {
        assert(views(objects@)[at as int] == objects@[at as int]@);
        match before {
            Some(o) => o.alike(&objects[at]),
            None => false,
        }
    } else {
        before.is_none()
    }
}

fn digest_matches(claimed: &Option<String>, present: bool, checks: &ObjectChecks) -> (r: bool)
    ensures
        r == (opt(*claimed) == (if present {
            checks@.digest
        } else {
            None
        })),
{
    if present {
        same_opt(claimed, &checks.digest)
    } else {
        claimed.is_none()
    }
}

fn validate_change(
    changes: &Vec<FirewallPlannedChange>,
    objects: &Vec<FirewallObject>,
    i: usize,
) -> (r: Result<(), FirewallRenderError>)
    requires
        i < changes@.len(),
    ensures
        ures(r) == change_matches(views(changes@), views(objects@), i as int),
{
    let change = &changes[i];
    assert(views(changes@)[i as int] == change@);
    let object = match subject_of(change) {
        Some(o) => o,
        None => {
            return Err(FirewallRenderError::PlanMismatch);
        },
    };
    if subject_touched(changes, i) || !same(change.diff.object.kind.as_str(), object.kind())
        || !same(change.diff.object.id.as_str(), object.id()) || change.diff.object.ownership
        != object.ownership() {
        return Err(FirewallRenderError::PlanMismatch);
    }
    if (change.before.is_some() && change.before_checks.digest.is_none()) || (change.after.is_some()
        && change.after_checks.digest.is_none()) {
        return Err(FirewallRenderError::InvalidObject);
    }
    if !digest_matches(&change.diff.before_digest, change.before.is_some(), &change.before_checks)
        || !digest_matches(&change.diff.after_digest, change.after.is_some(), &change.after_checks)
        || !same_opt(&change.diff.object.expected_version, &change.diff.before_digest) {
        return Err(FirewallRenderError::PlanMismatch);
    }
    let held = stored_matches(&change.before, objects, object.kind(), object.id());
    let fits = match change.diff.operation {
        ChangeOperation::Create => change.before.is_none() && change.after.is_some() && held,
        ChangeOperation::Update => held && change.after.is_some(),
        ChangeOperation::Move => held && change.after.is_some(),
        ChangeOperation::Delete => held && change.after.is_none(),
    };
    if fits {
        Ok(())
    } else {
        Err(FirewallRenderError::PlanMismatch)
    }
}

fn validate_plan_against_snapshot(
    changes: &Vec<FirewallPlannedChange>,
    objects: &Vec<FirewallObject>,
) -> (r: Result<(), FirewallRenderError>)
    ensures
        ures(r) == plan_matches(views(changes@), views(objects@)),
{
    if changes.len() == 0 || changes.len() > MAX_CHANGES {
        return Err(FirewallRenderError::PlanMismatch);
    }
    if !distinct_identities(objects) {
        return Err(FirewallRenderError::DuplicateInventoryObject);
    }
    let mut i: usize = 0;
    while i < changes.len()
        invariant
            i <= changes@.len(),
            0 < changes@.len() <= MAX_CHANGES,
            identities_distinct(views(objects@)),
            changes_match(views(changes@), views(objects@), i as int) == changes_match(
                views(changes@),
                views(objects@),
                0,
            ),
        decreases changes@.len() - i,
    {
        match validate_change(changes, objects, i) {
            Ok(()) => {},
            Err(e) => {
                return Err(e);
            },
        }
        i = i + 1;
    }
    Ok(())
}

/// A firewall backend that is safe to use for configuration writes.
#[derive(Debug, Clone, Copy, PartialEq, Eq, Structural)]
pub enum FirewallWriteBackend {
    OpenWrtFw3,
    OpenWrtFw4,
    LinuxNftables,
    LinuxIptables,
}

/// A native check of a staged package.
#[derive(Debug, Clone, Copy, PartialEq, Eq, Structural)]
pub enum OpenWrtValidation {
    /// Run `fw3 -4 -q print` on the staging directory.
    Fw3PrintIpv4,
    /// Run `fw3 -6 -q print` on the staging directory.
    Fw3PrintIpv6,
    /// Run `fw4 -q check` on the staging directory.
    Fw4Check,
}

/// A complete staging artifact. Nothing in it has been executed.
#[derive(Debug, Clone, PartialEq, Eq)]
pub struct OpenWrtFirewallStage {
    /// Input for `uci -c <staging-dir> batch`.
    pub uci_batch: String,
    /// The checks that must all succeed before installation.
    pub validations: Vec<OpenWrtValidation>,
    /// The only activation that is allowed once the staged file is installed.
    pub activation_service: &'static str,
    pub activation_action: &'static str,
}

#[verifier::ext_equal]
pub struct OpenWrtFirewallStageView {
    pub uci_batch: Seq<char>,
    pub validations: Seq<OpenWrtValidation>,
    pub activation_service: Seq<char>,
    pub activation_action: Seq<char>,
}

impl View for OpenWrtFirewallStage {
    type V = OpenWrtFirewallStageView;

    open spec fn view(&self) -> OpenWrtFirewallStageView {
        OpenWrtFirewallStageView {
            uci_batch: self.uci_batch@,
            validations: self.validations@,
            activation_service: self.activation_service@,
            activation_action: self.activation_action@,
        }
    }
}

/// What has been rendered so far, and which section names are taken.
pub struct StageDraft {
    pub batch: String,
    pub reserved: Vec<String>,
}

#[verifier::ext_equal]
pub struct StageDraftView {
    pub batch: Seq<char>,
    pub reserved: Seq<Seq<char>>,
}

impl View for StageDraft {
    type V = StageDraftView;

    open spec fn view(&self) -> StageDraftView {
        StageDraftView { batch: self.batch@, reserved: views(self.reserved@) }
    }
}

/// The backend that a platform can write through, with every command that it needs.
pub open spec fn write_backend(c: PlatformCapabilitiesView) -> Option<FirewallWriteBackend> {
    let has = |name: Seq<char>| c.available_commands.contains(name);
    match (c.kind, c.firewall.backend) {
        (PlatformKind::OpenWrt, FirewallBackend::Fw3) => if has("uci"@) && has("fw3"@) {
            Some(FirewallWriteBackend::OpenWrtFw3)
        } else {
            None
        },
        (PlatformKind::OpenWrt, FirewallBackend::Fw4) => if has("uci"@) && has("fw4"@) && has(
            "nft"@,
        ) {
            Some(FirewallWriteBackend::OpenWrtFw4)
        } else {
            None
        },
        (PlatformKind::GenericLinux, FirewallBackend::Nftables) => if has("nft"@) {
            Some(FirewallWriteBackend::LinuxNftables)
        } else {
            None
        },
        (PlatformKind::GenericLinux, FirewallBackend::Iptables) => if has("iptables-restore"@)
            && has("ip6tables-restore"@) && has("iptables-save"@) && has("ip6tables-save"@) {
            Some(FirewallWriteBackend::LinuxIptables)
        } else {
            None
        },
        _ => None,
    }
}

/// Selects a write backend only when all commands that it needs were discovered.
pub fn select_firewall_write_backend(capabilities: &PlatformCapabilities) -> (r: Result<
    FirewallWriteBackend,
    FirewallRenderError,
>)
    ensures
        r == (match write_backend(capabilities@) {
            Some(b) => Ok(b),
            None => Err(FirewallRenderError::BackendUnavailable),
        }),
{
    let c = &capabilities.available_commands;
    match (capabilities.kind, capabilities.firewall.backend) {
        (PlatformKind::OpenWrt, FirewallBackend::Fw3) => {
            if holds(c, "uci") && holds(c, "fw3") {
                return Ok(FirewallWriteBackend::OpenWrtFw3);
            }
        },
        (PlatformKind::OpenWrt, FirewallBackend::Fw4) => {
            if holds(c, "uci") && holds(c, "fw4") && holds(c, "nft") {
                return Ok(FirewallWriteBackend::OpenWrtFw4);
            }
        },
        (PlatformKind::GenericLinux, FirewallBackend::Nftables) => {
            if holds(c, "nft") {
                return Ok(FirewallWriteBackend::LinuxNftables);
            }
        },
        (PlatformKind::GenericLinux, FirewallBackend::Iptables) => {
            if holds(c, "iptables-restore") && holds(c, "ip6tables-restore") && holds(
                c,
                "iptables-save",
            ) && holds(c, "ip6tables-save") {
                return Ok(FirewallWriteBackend::LinuxIptables);
            }
        },
        _ => {},
    }
    Err(FirewallRenderError::BackendUnavailable)
}

/// A write backend is selected only when every command that it runs is available.
pub proof fn law_write_backend_is_complete(c: PlatformCapabilitiesView)
    ensures
        write_backend(c) matches Some(b) ==> (match b {
            FirewallWriteBackend::OpenWrtFw3 => c.available_commands.contains("uci"@)
                && c.available_commands.contains("fw3"@),
            FirewallWriteBackend::OpenWrtFw4 => c.available_commands.contains("uci"@)
                && c.available_commands.contains("fw4"@) && c.available_commands.contains("nft"@),
            FirewallWriteBackend::LinuxNftables => c.available_commands.contains("nft"@),
            FirewallWriteBackend::LinuxIptables => c.available_commands.contains(
                "iptables-restore"@,
            ) && c.available_commands.contains("ip6tables-restore"@)
                && c.available_commands.contains("iptables-save"@)
                && c.available_commands.contains("ip6tables-save"@),
        }),
{
}

/// Whether a section is the one that an object was read from.
pub open spec fn section_is_of(s: UciSectionView, o: FirewallObjectView) -> bool {
    is_type_of(s.section_type, o.kind()) && (s.first("name"@) == Some(o.id()) || match o {
        FirewallObjectView::Forwarding(f) => !s.has("name"@) && s.first("src"@) == Some(
            f.source_zone,
        ) && s.first("dest"@) == Some(f.destination_zone),
        FirewallObjectView::FilterRule(_) => !s.has("name"@) && fallback_name(s) == Some(o.id()),
        FirewallObjectView::NatRule(_) => !s.has("name"@) && fallback_name(s) == Some(o.id()),
        _ => false,
    })
}

/// The name of an unnamed rule or translation section, by its position.
pub open spec fn fallback_name(s: UciSectionView) -> Option<Seq<char>> {
    if s.section_type == "rule"@ || s.section_type == "redirect"@ || s.section_type == "nat"@ {
        position_id(s, s.section_type)
    } else {
        None
    }
}

/// The index of the first section of an object from `i` on, or the number of sections.
pub open spec fn section_of_from(
    sections: Seq<UciSectionView>,
    o: FirewallObjectView,
    i: int,
) -> int
    decreases sections.len() - i,
{
    if i < 0 || i >= sections.len() {
        sections.len() as int
    } else if section_is_of(sections[i], o) {
        i
    } else {
        section_of_from(sections, o, i + 1)
    }
}

/// The bindings of the objects from `i` on, behind `acc`. An object without a section has none.
pub open spec fn bound_from(
    acc: Seq<OpenWrtObjectBindingView>,
    sections: Seq<UciSectionView>,
    objects: Seq<FirewallObjectView>,
    valid: Seq<bool>,
    i: int,
) -> Result<Seq<OpenWrtObjectBindingView>, FirewallRenderErrorView>
    decreases objects.len() - i,
{
    if i < 0 || i >= objects.len() {
        Ok(acc)
    } else if !verdict_at(valid, i) {
        Err(FirewallRenderErrorView::InvalidObject)
    } else {
        let at = section_of_from(sections, objects[i], 0);
        if at >= sections.len() {
            bound_from(acc, sections, objects, valid, i + 1)
        } else if section_of_from(sections, objects[i], at + 1) < sections.len() || is_claimed(
            acc,
            sections[at].selector,
        ) {
            Err(FirewallRenderErrorView::AmbiguousBinding)
        } else {
            bound_from(
                acc.push(firewall_binding(sections[at], objects[i])),
                sections,
                objects,
                valid,
                i + 1,
            )
        }
    }
}

pub open spec fn is_claimed(bindings: Seq<OpenWrtObjectBindingView>, section: Seq<char>) -> bool {
    exists|i: int| 0 <= i < bindings.len() && (#[trigger] bindings[i]).section == section
}

fn claimed(bindings: &Vec<OpenWrtObjectBinding>, section: &str) -> (r: bool)
    ensures
        r == is_claimed(views(bindings@), section@),
{
    let ghost all = views(bindings@);
    let mut i: usize = 0;
    while i < bindings.len()
        invariant
            i <= bindings@.len(),
            all == views(bindings@),
            forall|k: int| 0 <= k < i ==> (#[trigger] all[k]).section != section@,
        decreases bindings@.len() - i,
    {
        assert(all[i as int] == bindings@[i as int]@);
        if same(bindings[i].section.as_str(), section) {
            return true;
        }
        i = i + 1;
    }
    false
}

fn fallback_section_id(section: &UciSection) -> (r: Option<String>)
    ensures
        opt(r) == fallback_name(section@),
{
    let t = section.section_type.as_str();
    if same(t, "rule") || same(t, "redirect") || same(t, "nat") {
        fallback_id(section, t)
    } else {
        None
    }
}

fn option_is(section: &UciSection, name: &str, value: &str) -> (r: bool)
    ensures
        r == (section@.first(name@) == Some(value@)),
{
    match section.first(name) {
        Some(v) => same(v, value),
        None => false,
    }
}

fn section_matches_object(section: &UciSection, object: &FirewallObject) -> (r: bool)
    ensures
        r == section_is_of(section@, object@),
{
    if !valid_section_type(section.section_type.as_str(), object.kind()) {
        return false;
    }
    if option_is(section, "name", object.id()) {
        return true;
    }
    match object {
        FirewallObject::Forwarding(f) => !section.has("name") && option_is(
            section,
            "src",
            f.source_zone.as_str(),
        ) && option_is(section, "dest", f.destination_zone.as_str()),
        FirewallObject::FilterRule(_) => !section.has("name") && fallback_is(section, object.id()),
        FirewallObject::NatRule(_) => !section.has("name") && fallback_is(section, object.id()),
        _ => false,
    }
}

fn fallback_is(section: &UciSection, id: &str) -> (r: bool)
    ensures
        r == (fallback_name(section@) == Some(id@)),
{
    match fallback_section_id(section) {
        Some(v) => same(v.as_str(), id),
        None => false,
    }
}

fn find_section_of(sections: &Vec<UciSection>, object: &FirewallObject, from: usize) -> (r: usize)
    requires
        from <= sections@.len(),
    ensures
        r == section_of_from(views(sections@), object@, from as int),
        r <= sections@.len(),
{
    let mut i: usize = from;
    while i < sections.len()
        invariant
            from <= i <= sections@.len(),
            section_of_from(views(sections@), object@, i as int) == section_of_from(
                views(sections@),
                object@,
                from as int,
            ),
        decreases sections@.len() - i,
    {
        if section_matches_object(&sections[i], object) {
            return i;
        }
        i = i + 1;
    }
    i
}

/// The bindings of an inventory in a package.
pub open spec fn inventory_bindings(
    text: Seq<char>,
    objects: Seq<FirewallObjectView>,
    valid: Seq<bool>,
) -> Result<Seq<OpenWrtObjectBindingView>, FirewallRenderErrorView> {
    match package_sections(text, "firewall"@, false) {
        Err(e) => Err(e),
        Ok(sections) => match bound_from(Seq::empty(), sections, objects, valid, 0) {
            Err(e) => Err(e),
            Ok(bindings) => if bindings.len() > MAX_BINDINGS {
                Err(FirewallRenderErrorView::Capacity)
            } else {
                match bindings_valid(bindings, 0) {
                    Err(e) => Err(e),
                    Ok(()) => Ok(bindings),
                }
            },
        },
    }
}

/// Resolves the objects of an inventory to the sections of a package.
///
/// The verdicts say of each object whether the object model accepts it. A section that two objects
/// match, or an object that two sections match, makes the whole resolution fail.
pub fn inspect_openwrt_object_bindings(
    uci_show: &str,
    inventory: &FirewallInventory,
    valid: &[bool],
) -> (r: Result<Vec<OpenWrtObjectBinding>, FirewallRenderError>)
    ensures
        lvres(r) == inventory_bindings(uci_show@, inventory@.objects, valid@),
{
    let sections = match parse_uci_show(uci_show) {
        Ok(s) => s,
        Err(e) => {
            return Err(e);
        },
    };
    let ghost all = views(sections@);
    let ghost objects = inventory@.objects;
    let mut bindings: Vec<OpenWrtObjectBinding> = Vec::new();
    let mut i: usize = 0;
    while i < inventory.objects.len()
        invariant
            i <= inventory.objects@.len(),
            all == views(sections@),
            objects == views(inventory.objects@),
            objects == inventory@.objects,
            package_sections(uci_show@, "firewall"@, false) == Ok::<
                Seq<UciSectionView>,
                FirewallRenderErrorView,
            >(all),
            bound_from(views(bindings@), all, objects, valid@, i as int) == bound_from(
                Seq::empty(),
                all,
                objects,
                valid@,
                0,
            ),
        decreases inventory.objects@.len() - i,
    {
        assert(objects[i as int] == inventory.objects@[i as int]@);
        if !(i < valid.len() && valid[i]) {
            return Err(FirewallRenderError::InvalidObject);
        }
        let at: usize = find_section_of(&sections, &inventory.objects[i], 0);
        if at < sections.len() {
            assert(all[at as int] == sections@[at as int]@);
            if find_section_of(&sections, &inventory.objects[i], at + 1) < sections.len()
                || claimed(&bindings, sections[at].selector.as_str()) {
                return Err(FirewallRenderError::AmbiguousBinding);
            }
            bindings.push(bind(&sections[at], &inventory.objects[i]));
        }
        i = i + 1;
    }
    match validate_bindings(&bindings) {
        Ok(()) => Ok(bindings),
        Err(e) => Err(e),
    }
}

pub open spec fn is_kind(kind: Seq<char>) -> bool {
    kind == "zone"@ || kind == "forwarding"@ || kind == "filter_rule"@ || kind == "address_set"@
        || kind == "nat_rule"@
}

pub open spec fn is_type_of(section_type: Seq<char>, kind: Seq<char>) -> bool {
    (kind == "zone"@ && section_type == "zone"@) || (kind == "forwarding"@ && section_type
        == "forwarding"@) || (kind == "filter_rule"@ && section_type == "rule"@) || (kind
        == "address_set"@ && section_type == "ipset"@) || (kind == "nat_rule"@ && (section_type
        == "redirect"@ || section_type == "nat"@))
}

fn known_kind(kind: &str) -> (r: bool)
    ensures
        r == is_kind(kind@),
{
    same(kind, "zone") || same(kind, "forwarding") || same(kind, "filter_rule") || same(
        kind,
        "address_set",
    ) || same(kind, "nat_rule")
}

fn valid_section_type(section_type: &str, kind: &str) -> (r: bool)
    ensures
        r == is_type_of(section_type@, kind@),
{
    (same(kind, "zone") && same(section_type, "zone")) || (same(kind, "forwarding") && same(
        section_type,
        "forwarding",
    )) || (same(kind, "filter_rule") && same(section_type, "rule")) || (same(kind, "address_set")
        && same(section_type, "ipset")) || (same(kind, "nat_rule") && (same(
        section_type,
        "redirect",
    ) || same(section_type, "nat")))
}

pub open spec fn family_name(f: FirewallFamily) -> Seq<char> {
    match f {
        FirewallFamily::Any => "any"@,
        FirewallFamily::Ipv4 => "ipv4"@,
        FirewallFamily::Ipv6 => "ipv6"@,
    }
}

fn family(value: FirewallFamily) -> (r: &'static str)
    ensures
        r@ == family_name(value),
{
    match value {
        FirewallFamily::Any => "any",
        FirewallFamily::Ipv4 => "ipv4",
        FirewallFamily::Ipv6 => "ipv6",
    }
}

pub open spec fn verdict_name(v: FirewallVerdict) -> Seq<char> {
    match v {
        FirewallVerdict::Accept => "ACCEPT"@,
        FirewallVerdict::Drop => "DROP"@,
        FirewallVerdict::Reject => "REJECT"@,
    }
}

fn verdict(value: FirewallVerdict) -> (r: &'static str)
    ensures
        r@ == verdict_name(value),
{
    match value {
        FirewallVerdict::Accept => "ACCEPT",
        FirewallVerdict::Drop => "DROP",
        FirewallVerdict::Reject => "REJECT",
    }
}

pub open spec fn protocol_name(p: FirewallProtocol) -> Seq<char> {
    match p {
        FirewallProtocol::Tcp => "tcp"@,
        FirewallProtocol::Udp => "udp"@,
        FirewallProtocol::Icmp => "icmp"@,
        FirewallProtocol::Icmpv6 => "icmpv6"@,
        FirewallProtocol::Esp => "esp"@,
        FirewallProtocol::Ah => "ah"@,
        FirewallProtocol::Gre => "gre"@,
    }
}

pub fn protocol(value: FirewallProtocol) -> (r: &'static str)
    ensures
        r@ == protocol_name(value),
{
    match value {
        FirewallProtocol::Tcp => "tcp",
        FirewallProtocol::Udp => "udp",
        FirewallProtocol::Icmp => "icmp",
        FirewallProtocol::Icmpv6 => "icmpv6",
        FirewallProtocol::Esp => "esp",
        FirewallProtocol::Ah => "ah",
        FirewallProtocol::Gre => "gre",
    }
}

/// The names of the protocols from `i` on, with spaces between all of them, behind `acc`.
pub open spec fn protocols_text(acc: Seq<char>, p: Seq<FirewallProtocol>, i: int) -> Seq<char>
    decreases p.len() - i,
{
    if i < 0 || i >= p.len() {
        acc
    } else if i == 0 {
        protocols_text(acc + protocol_name(p[i]), p, i + 1)
    } else {
        protocols_text(acc + " "@ + protocol_name(p[i]), p, i + 1)
    }
}

pub open spec fn protocols_value(p: Seq<FirewallProtocol>) -> Option<Seq<char>> {
    if p.len() > 0 {
        Some(protocols_text(Seq::empty(), p, 0))
    } else {
        None
    }
}

pub open spec fn port_text(p: PortRange) -> Seq<char> {
    if p.start == p.end {
        decimal(p.start as nat)
    } else {
        decimal(p.start as nat) + "-"@ + decimal(p.end as nat)
    }
}

pub open spec fn first_network(s: Seq<IpNetwork>) -> Option<Seq<char>> {
    if s.len() > 0 {
        Some(network_format(s[0]))
    } else {
        None
    }
}

pub open spec fn first_port(s: Seq<PortRange>) -> Option<Seq<char>> {
    if s.len() > 0 {
        Some(port_text(s[0]))
    } else {
        None
    }
}

pub open spec fn port_of(o: Option<PortRange>) -> Option<Seq<char>> {
    match o {
        Some(p) => Some(port_text(p)),
        None => None,
    }
}

pub open spec fn unsupported<T>(field: Seq<char>) -> Result<T, FirewallRenderErrorView> {
    Err(FirewallRenderErrorView::UnsupportedField(field))
}

/// The options with the zones and the interface that place a rule.
pub open spec fn placed(
    options: OptionsView,
    direction: FirewallDirection,
    m: FirewallMatchView,
) -> Result<OptionsView, FirewallRenderErrorView> {
    if m.source_zones.len() > 1 {
        unsupported("rule source zone"@)
    } else if m.destination_zones.len() > 1 {
        unsupported("rule destination zone"@)
    } else if m.input_interfaces.len() > 1 {
        unsupported("rule input interface"@)
    } else if m.output_interfaces.len() > 1 {
        unsupported("rule output interface"@)
    } else {
        match direction {
            FirewallDirection::Input => if m.destination_zones.len() > 0 || m.output_interfaces.len()
                > 0 {
                unsupported("input rule destination zone or output interface"@)
            } else {
                let zoned = put_some(options, "src"@, first_of(m.source_zones));
                Ok(
                    if m.input_interfaces.len() > 0 {
                        zoned.push(("device"@, m.input_interfaces[0])).push(("direction"@, "in"@))
                    } else {
                        zoned
                    },
                )
            },
            FirewallDirection::Output => if m.source_zones.len() > 0 || m.input_interfaces.len()
                > 0 {
                unsupported("output rule source zone or input interface"@)
            } else {
                let zoned = put_some(options, "dest"@, first_of(m.destination_zones));
                Ok(
                    if m.output_interfaces.len() > 0 {
                        zoned.push(("device"@, m.output_interfaces[0])).push(("direction"@, "out"@))
                    } else {
                        zoned
                    },
                )
            },
            FirewallDirection::Forward => if m.input_interfaces.len() > 0
                || m.output_interfaces.len() > 0 {
                unsupported("forward rule interface matching"@)
            } else {
                Ok(
                    put_some(
                        put_some(options, "src"@, first_of(m.source_zones)),
                        "dest"@,
                        first_of(m.destination_zones),
                    ),
                )
            },
        }
    }
}

/// The options with the one set that a rule matches.
pub open spec fn with_set(options: OptionsView, m: FirewallMatchView) -> Result<
    OptionsView,
    FirewallRenderErrorView,
> {
    if m.source_sets.len() + m.destination_sets.len() > 1 {
        unsupported("fw3/fw4 UCI supports one set match per rule"@)
    } else if m.source_sets.len() > 0 {
        Ok(options.push(("ipset"@, m.source_sets[0] + " src"@)))
    } else if m.destination_sets.len() > 0 {
        Ok(options.push(("ipset"@, m.destination_sets[0] + " dest"@)))
    } else {
        Ok(options)
    }
}

pub open spec fn network_texts(s: Seq<IpNetwork>) -> Seq<Seq<char>> {
    Seq::new(s.len(), |i: int| network_format(s[i]))
}

pub open spec fn port_texts(s: Seq<PortRange>) -> Seq<Seq<char>> {
    Seq::new(s.len(), |i: int| port_text(s[i]))
}

pub open spec fn byte_texts(s: Seq<u8>) -> Seq<Seq<char>> {
    Seq::new(s.len(), |i: int| decimal(s[i] as nat))
}

/// The lists that a filter rule fills; an empty one is left out.
pub open spec fn match_lists(m: FirewallMatchView) -> ListsView {
    let l1 = put_list(Seq::empty(), "src_ip"@, network_texts(m.source_networks));
    let l2 = put_list(l1, "dest_ip"@, network_texts(m.destination_networks));
    let l3 = put_list(l2, "src_mac"@, m.source_macs);
    let l4 = put_list(l3, "src_port"@, port_texts(m.source_ports));
    let l5 = put_list(l4, "dest_port"@, port_texts(m.destination_ports));
    put_list(l5, "icmp_type"@, byte_texts(m.icmp_types))
}

pub open spec fn filter_rule_section(r: FirewallFilterRuleView) -> Result<
    RenderedSectionView,
    FirewallRenderErrorView,
> {
    if r.verdict == FirewallVerdict::Reject {
        unsupported("per-rule reject kind is not representable by fw3/fw4 UCI"@)
    } else if r.matches.conntrack_states.len() > 0 {
        unsupported("conntrack state requires an unmanaged raw expression"@)
    } else {
        let base = seq![
            ("name"@, r.id),
            ("enabled"@, flag(r.enabled)),
            ("family"@, family_name(r.matches.family)),
            ("target"@, verdict_name(r.verdict)),
        ];
        match placed(base, r.direction, r.matches) {
            Err(e) => Err(e),
            Ok(located) => match with_set(
                put_some(located, "proto"@, protocols_value(r.matches.protocols)),
                r.matches,
            ) {
                Err(e) => Err(e),
                Ok(set) => {
                    let limited = match r.rate_limit {
                        Some(l) => set.push(
                            ("limit"@, decimal(l.packets_per_second as nat) + "/second"@),
                        ).push(("limit_burst"@, decimal(l.burst as nat))),
                        None => set,
                    };
                    if r.log is Some && r.log->Some_0.level != FirewallLogLevel::Info {
                        unsupported("fw3/fw4 UCI does not preserve a per-rule log level"@)
                    } else {
                        Ok(
                            RenderedSectionView {
                                section_type: "rule"@,
                                options: match r.log {
                                    Some(l) => limited.push(("log"@, l.prefix)),
                                    None => limited,
                                },
                                lists: match_lists(r.matches),
                            },
                        )
                    }
                },
            },
        }
    }
}

/// Why the matches of a translation rule cannot be written, if they cannot.
pub open spec fn nat_match_error(m: FirewallMatchView) -> Option<Seq<char>> {
    if m.conntrack_states.len() > 0 || m.icmp_types.len() > 0 || m.input_interfaces.len() > 0
        || m.output_interfaces.len() > 0 {
        Some("NAT conntrack, ICMP type, or interface matching"@)
    } else if m.source_zones.len() > 1 {
        Some("NAT source zone"@)
    } else if m.destination_zones.len() > 1 {
        Some("NAT destination zone"@)
    } else if m.source_networks.len() > 1 {
        Some("NAT source network"@)
    } else if m.destination_networks.len() > 1 {
        Some("NAT destination network"@)
    } else if m.source_ports.len() > 1 {
        Some("NAT source port"@)
    } else if m.destination_ports.len() > 1 {
        Some("NAT destination port"@)
    } else {
        None
    }
}

pub open spec fn nat_base(r: FirewallNatRuleView) -> OptionsView {
    let named = seq![
        ("name"@, r.id),
        ("enabled"@, flag(r.enabled)),
        ("family"@, family_name(r.matches.family)),
    ];
    let zoned = put_some(named, "src"@, first_of(r.matches.source_zones));
    let typed = put_some(zoned, "proto"@, protocols_value(r.matches.protocols));
    put_some(
        put_some(typed, "src_ip"@, first_network(r.matches.source_networks)),
        "src_port"@,
        first_port(r.matches.source_ports),
    )
}

pub open spec fn nat_rule_section(r: FirewallNatRuleView) -> Result<
    RenderedSectionView,
    FirewallRenderErrorView,
> {
    let m = r.matches;
    match nat_match_error(m) {
        Some(field) => unsupported(field),
        None => match r.kind {
            FirewallNatKind::SourceNat | FirewallNatKind::Masquerade => if m.source_sets.len() > 0
                || m.destination_sets.len() > 0 || m.source_macs.len() > 0 {
                unsupported("fw3/fw4 nat sections do not support sets or source MACs"@)
            } else {
                Ok(
                    RenderedSectionView {
                        section_type: "nat"@,
                        options: put_some(
                            put_some(
                                put_some(
                                    put_some(
                                        nat_base(r),
                                        "dest_ip"@,
                                        first_network(m.destination_networks),
                                    ),
                                    "dest_port"@,
                                    first_port(m.destination_ports),
                                ),
                                "snat_ip"@,
                                address_of(r.translation_address),
                            ),
                            "snat_port"@,
                            port_of(r.translation_port),
                        ).push(
                            (
                                "target"@,
                                if r.kind == FirewallNatKind::Masquerade {
                                    "MASQUERADE"@
                                } else {
                                    "SNAT"@
                                },
                            ),
                        ),
                        lists: Seq::empty(),
                    },
                )
            },
            _ => {
                let dest = put_some(nat_base(r), "dest"@, first_of(m.destination_zones));
                let from = put_some(
                    put_some(dest, "src_dip"@, first_network(m.destination_networks)),
                    "src_dport"@,
                    first_port(m.destination_ports),
                );
                let to = put_some(
                    put_some(from, "dest_ip"@, address_of(r.translation_address)),
                    "dest_port"@,
                    port_of(r.translation_port),
                );
                match with_set(to.push(("target"@, "DNAT"@)), m) {
                    Err(e) => Err(e),
                    Ok(options) => Ok(
                        RenderedSectionView {
                            section_type: "redirect"@,
                            options,
                            lists: put_list(Seq::empty(), "src_mac"@, m.source_macs),
                        },
                    ),
                }
            },
        },
    }
}

/// The text of an entry, if it is of the same sort as the first.
pub open spec fn entry_text(e: FirewallSetEntryView, first: FirewallSetEntryView) -> Option<
    Seq<char>,
> {
    match (first, e) {
        (FirewallSetEntryView::Network(_), FirewallSetEntryView::Network(n)) => Some(
            network_format(n),
        ),
        (FirewallSetEntryView::Mac(_), FirewallSetEntryView::Mac(m)) => Some(m),
        (FirewallSetEntryView::Port(_), FirewallSetEntryView::Port(p)) => Some(port_text(p)),
        _ => None,
    }
}

pub open spec fn set_match_name(e: FirewallSetEntryView) -> Seq<char> {
    match e {
        FirewallSetEntryView::Network(_) => "src_net"@,
        FirewallSetEntryView::Mac(_) => "src_mac"@,
        FirewallSetEntryView::Port(_) => "src_port"@,
    }
}

/// The texts of the entries of a set, all of one sort.
pub open spec fn entry_texts(e: Seq<FirewallSetEntryView>) -> Option<Seq<Seq<char>>> {
    if e.len() == 0 {
        None
    } else {
        map_all(e, |x: FirewallSetEntryView| entry_text(x, e[0]))
    }
}

/// The section that an object is written as.
pub open spec fn object_section(o: FirewallObjectView, backend: FirewallBackend) -> Result<
    RenderedSectionView,
    FirewallRenderErrorView,
> {
    match o {
        FirewallObjectView::Zone(z) => Ok(
            RenderedSectionView {
                section_type: "zone"@,
                options: seq![
                    ("name"@, z.id),
                    ("enabled"@, flag(z.enabled)),
                    ("input"@, verdict_name(z.input)),
                    ("output"@, verdict_name(z.output)),
                    ("forward"@, verdict_name(z.forward)),
                    ("masq"@, flag(z.masquerade)),
                    ("mtu_fix"@, flag(z.mtu_fix)),
                ],
                lists: seq![("network"@, z.networks)],
            },
        ),
        FirewallObjectView::Forwarding(f) => Ok(
            RenderedSectionView {
                section_type: "forwarding"@,
                options: seq![
                    ("name"@, f.id),
                    ("enabled"@, flag(f.enabled)),
                    ("src"@, f.source_zone),
                    ("dest"@, f.destination_zone),
                ],
                lists: Seq::empty(),
            },
        ),
        FirewallObjectView::FilterRule(r) => filter_rule_section(r),
        FirewallObjectView::AddressSet(s) => match entry_texts(s.entries) {
            None => Err(FirewallRenderErrorView::InvalidObject),
            Some(entries) => {
                let base = seq![
                    ("name"@, s.id),
                    ("enabled"@, flag(s.enabled)),
                    ("family"@, family_name(s.family)),
                ];
                Ok(
                    RenderedSectionView {
                        section_type: "ipset"@,
                        options: if backend == FirewallBackend::Fw3 {
                            base.push(("storage"@, "hash"@))
                        } else {
                            base
                        },
                        lists: seq![
                            ("match"@, seq![set_match_name(s.entries[0])]),
                            ("entry"@, entries),
                        ],
                    },
                )
            },
        },
        FirewallObjectView::NatRule(r) => nat_rule_section(r),
    }
}

/// The options of a kind that an update may remove.
pub open spec fn supported_names(kind: Seq<char>) -> Seq<Seq<char>> {
    if kind == "zone"@ {
        seq![
            "name"@,
            "enabled"@,
            "network"@,
            "input"@,
            "output"@,
            "forward"@,
            "masq"@,
            "mtu_fix"@,
        ]
    } else if kind == "forwarding"@ {
        seq!["name"@, "enabled"@, "src"@, "dest"@]
    } else if kind == "filter_rule"@ {
        seq![
            "name"@,
            "enabled"@,
            "family"@,
            "src"@,
            "dest"@,
            "device"@,
            "direction"@,
            "ipset"@,
            "proto"@,
            "src_ip"@,
            "src_mac"@,
            "src_port"@,
            "dest_ip"@,
            "dest_port"@,
            "icmp_type"@,
            "limit"@,
            "limit_burst"@,
            "log"@,
            "target"@,
        ]
    } else if kind == "address_set"@ {
        seq!["name"@, "enabled"@, "family"@, "storage"@, "match"@, "entry"@]
    } else if kind == "nat_rule"@ {
        seq![
            "name"@,
            "enabled"@,
            "family"@,
            "src"@,
            "dest"@,
            "ipset"@,
            "proto"@,
            "src_ip"@,
            "src_mac"@,
            "src_port"@,
            "src_dip"@,
            "src_dport"@,
            "dest_ip"@,
            "dest_port"@,
            "snat_ip"@,
            "snat_port"@,
            "target"@,
        ]
    } else {
        Seq::empty()
    }
}

/// The name of a new section, made of the kind and the digest.
pub open spec fn fresh_section(kind: Seq<char>, digest: Seq<char>) -> Option<Seq<char>> {
    if !is_digest(digest) {
        None
    } else {
        let tail = lower_all(digest.take(16));
        if kind == "zone"@ {
            Some("mbed_z_"@ + tail)
        } else if kind == "forwarding"@ {
            Some("mbed_f_"@ + tail)
        } else if kind == "filter_rule"@ {
            Some("mbed_r_"@ + tail)
        } else if kind == "address_set"@ {
            Some("mbed_s_"@ + tail)
        } else if kind == "nat_rule"@ {
            Some("mbed_n_"@ + tail)
        } else {
            None
        }
    }
}

pub open spec fn unsafe_value(t: Option<Seq<char>>) -> Result<Seq<char>, FirewallRenderErrorView> {
    match t {
        Some(s) => Ok(s),
        None => Err(FirewallRenderErrorView::UnsafeValue),
    }
}

/// The batch with the commands that create an object behind it.
pub open spec fn created(
    batch: Seq<char>,
    section: Seq<char>,
    o: FirewallObjectView,
    backend: FirewallBackend,
) -> Result<Seq<char>, FirewallRenderErrorView> {
    match object_section(o, backend) {
        Err(e) => Err(e),
        Ok(s) => unsafe_value(
            section_text(
                batch + create_line("firewall"@, section, s.section_type),
                "firewall"@,
                section,
                s,
            ),
        ),
    }
}

/// The batch with the commands that rewrite a bound object behind it.
pub open spec fn updated(
    batch: Seq<char>,
    b: OpenWrtObjectBindingView,
    o: FirewallObjectView,
    backend: FirewallBackend,
) -> Result<Seq<char>, FirewallRenderErrorView> {
    match object_section(o, backend) {
        Err(e) => Err(e),
        Ok(s) => if s.section_type != b.section_type {
            Err(FirewallRenderErrorView::PlanMismatch)
        } else {
            unsafe_value(
                section_text(
                    cleared_text(
                        batch,
                        "firewall"@,
                        b.section,
                        b.present_options,
                        supported_names(o.kind()),
                        0,
                    ),
                    "firewall"@,
                    b.section,
                    s,
                ),
            )
        },
    }
}

pub open spec fn order_of(o: FirewallObjectView) -> Option<u32> {
    match o {
        FirewallObjectView::FilterRule(r) => Some(r.order),
        FirewallObjectView::NatRule(r) => Some(r.order),
        _ => None,
    }
}

pub open spec fn with_batch(
    d: StageDraftView,
    batch: Result<Seq<char>, FirewallRenderErrorView>,
) -> Result<StageDraftView, FirewallRenderErrorView> {
    match batch {
        Ok(t) => Ok(StageDraftView { batch: t, ..d }),
        Err(e) => Err(e),
    }
}

/// The draft behind one change, before its size is looked at.
pub open spec fn change_drafted(
    d: StageDraftView,
    c: FirewallPlannedChangeView,
    bindings: Seq<OpenWrtObjectBindingView>,
    backend: FirewallBackend,
) -> Result<StageDraftView, FirewallRenderErrorView> {
    match subject(c) {
        None => Err(FirewallRenderErrorView::MissingObject),
        Some(o) => {
            let bound = binding_from(bindings, o.kind(), o.id(), 0);
            if !subject_valid(c) {
                Err(FirewallRenderErrorView::InvalidObject)
            } else if c.diff.object.kind != o.kind() || c.diff.object.id != o.id() {
                Err(FirewallRenderErrorView::PlanMismatch)
            } else {
                match c.diff.operation {
                    ChangeOperation::Create => if bound is Some {
                        Err(FirewallRenderErrorView::DuplicateBinding)
                    } else {
                        match c.diff.after_digest {
                            None => Err(FirewallRenderErrorView::PlanMismatch),
                            Some(digest) => match fresh_section(o.kind(), digest) {
                                None => Err(FirewallRenderErrorView::PlanMismatch),
                                Some(section) => if d.reserved.contains(section) {
                                    Err(FirewallRenderErrorView::DuplicateSection)
                                } else {
                                    with_batch(
                                        StageDraftView {
                                            reserved: d.reserved.push(section),
                                            ..d
                                        },
                                        created(d.batch, section, o, backend),
                                    )
                                },
                            },
                        }
                    },
                    ChangeOperation::Update => match bound {
                        None => Err(FirewallRenderErrorView::MissingBinding),
                        Some(b) => with_batch(d, updated(d.batch, b, o, backend)),
                    },
                    ChangeOperation::Delete => match bound {
                        None => Err(FirewallRenderErrorView::MissingBinding),
                        Some(b) => Ok(
                            StageDraftView {
                                batch: d.batch + delete_line("firewall"@, b.section),
                                ..d
                            },
                        ),
                    },
                    ChangeOperation::Move => match bound {
                        None => Err(FirewallRenderErrorView::MissingBinding),
                        Some(b) => match order_of(o) {
                            None => unsupported("move is only supported for ordered rules"@),
                            Some(order) => Ok(
                                StageDraftView {
                                    batch: d.batch + reorder_line(b.section, order),
                                    ..d
                                },
                            ),
                        },
                    },
                }
            }
        },
    }
}

/// A command that moves a section to a position.
pub open spec fn reorder_line(section: Seq<char>, order: u32) -> Seq<char> {
    "reorder firewall."@ + section + "="@ + decimal(order as nat) + "\n"@
}

/// The draft behind the changes from `i` on.
pub open spec fn drafted(
    d: StageDraftView,
    changes: Seq<FirewallPlannedChangeView>,
    bindings: Seq<OpenWrtObjectBindingView>,
    backend: FirewallBackend,
    i: int,
) -> Result<StageDraftView, FirewallRenderErrorView>
    decreases changes.len() - i,
{
    if i < 0 || i >= changes.len() {
        Ok(d)
    } else {
        match change_drafted(d, changes[i], bindings, backend) {
            Err(e) => Err(e),
            Ok(next) => if byte_len(next.batch) > MAX_BATCH_BYTES {
                Err(FirewallRenderErrorView::Capacity)
            } else {
                drafted(next, changes, bindings, backend, i + 1)
            },
        }
    }
}

pub open spec fn validations_of(backend: FirewallBackend) -> Seq<OpenWrtValidation> {
    if backend == FirewallBackend::Fw3 {
        seq![OpenWrtValidation::Fw3PrintIpv4, OpenWrtValidation::Fw3PrintIpv6]
    } else {
        seq![OpenWrtValidation::Fw4Check]
    }
}

pub open spec fn bound_sections(bindings: Seq<OpenWrtObjectBindingView>) -> Seq<Seq<char>> {
    Seq::new(bindings.len(), |i: int| bindings[i].section)
}

/// The stage that changes become against bindings and the sections that exist. Without a list of
/// sections those of the bindings are the taken ones.
pub open spec fn firewall_stage(
    changes: Seq<FirewallPlannedChangeView>,
    bindings: Seq<OpenWrtObjectBindingView>,
    occupied: Seq<Seq<char>>,
    backend: FirewallBackend,
) -> Result<OpenWrtFirewallStageView, FirewallRenderErrorView> {
    if backend != FirewallBackend::Fw3 && backend != FirewallBackend::Fw4 {
        Err(FirewallRenderErrorView::WrongBackend)
    } else if bindings.len() > MAX_BINDINGS {
        Err(FirewallRenderErrorView::Capacity)
    } else {
        match bindings_valid(bindings, 0) {
            Err(e) => Err(e),
            Ok(()) => if !occupied.no_duplicates() {
                Err(FirewallRenderErrorView::DuplicateSection)
            } else if occupied.len() > 0 && !sections_reserved(bindings, occupied) {
                Err(FirewallRenderErrorView::UnsafeBinding)
            } else {
                match drafted(
                    StageDraftView {
                        batch: Seq::empty(),
                        reserved: if occupied.len() > 0 {
                            occupied
                        } else {
                            bound_sections(bindings)
                        },
                    },
                    changes,
                    bindings,
                    backend,
                    0,
                ) {
                    Err(e) => Err(e),
                    Ok(d) => Ok(staged(d, backend)),
                }
            },
        }
    }
}

pub open spec fn staged(d: StageDraftView, backend: FirewallBackend) -> OpenWrtFirewallStageView {
    OpenWrtFirewallStageView {
        uci_batch: d.batch + "commit firewall\n"@,
        validations: validations_of(backend),
        activation_service: "/etc/init.d/firewall"@,
        activation_action: "reload"@,
    }
}

/// The text of a port or a range of ports.
pub fn port(value: PortRange) -> (r: String)
    ensures
        r@ == port_text(value),
{
    let mut r = decimal_text(value.start as u64);
    if value.start != value.end {
        r.append("-");
        r.append(decimal_text(value.end as u64).as_str());
    }
    r
}

fn push_protocols(options: &mut Vec<RenderedOption>, protocols: &Vec<FirewallProtocol>)
    ensures
        views(final(options)@) == put_some(
            views(old(options)@),
            "proto"@,
            protocols_value(views(protocols@)),
        ),
{
    assert(views(protocols@) =~= protocols@);
    if protocols.len() > 0 {
        let mut text = String::new();
        let mut i: usize = 0;
        while i < protocols.len()
            invariant
                i <= protocols@.len(),
                protocols_text(text@, protocols@, i as int) == protocols_text(
                    Seq::empty(),
                    protocols@,
                    0,
                ),
            decreases protocols@.len() - i,
        {
            if i > 0 {
                text.append(" ");
            }
            text.append(protocol(protocols[i]));
            i = i + 1;
        }
        push_option(options, "proto", text);
    }
}

fn add_optional_network(
    options: &mut Vec<RenderedOption>,
    name: &'static str,
    values: &Vec<IpNetwork>,
)
    ensures
        views(final(options)@) == put_some(
            views(old(options)@),
            name@,
            first_network(views(values@)),
        ),
{
    if values.len() > 0 {
        assert(views(values@)[0] == values@[0]@);
        push_option(options, name, values[0].text());
    }
}

fn add_first_port(options: &mut Vec<RenderedOption>, name: &'static str, values: &Vec<PortRange>)
    ensures
        views(final(options)@) == put_some(views(old(options)@), name@, first_port(views(values@))),
{
    if values.len() > 0 {
        assert(views(values@)[0] == values@[0]@);
        push_option(options, name, port(values[0]));
    }
}

fn add_optional_port(
    options: &mut Vec<RenderedOption>,
    name: &'static str,
    value: &Option<PortRange>,
)
    ensures
        views(final(options)@) == put_some(views(old(options)@), name@, port_of(*value)),
{
    match value {
        Some(p) => push_option(options, name, port(*p)),
        None => {},
    }
}

/// The options behind a step that succeeded, or the error.
pub open spec fn options_result(
    r: Result<(), FirewallRenderError>,
    options: OptionsView,
) -> Result<OptionsView, FirewallRenderErrorView> {
    match r {
        Ok(()) => Ok(options),
        Err(e) => Err(e@),
    }
}

fn render_rule_location(
    direction: FirewallDirection,
    matches: &FirewallMatch,
    options: &mut Vec<RenderedOption>,
) -> (r: Result<(), FirewallRenderError>)
    ensures
        options_result(r, views(final(options)@)) == placed(
            views(old(options)@),
            direction,
            matches@,
        ),
{
    if matches.source_zones.len() > 1 {
        return Err(FirewallRenderError::UnsupportedField("rule source zone"));
    }
    if matches.destination_zones.len() > 1 {
        return Err(FirewallRenderError::UnsupportedField("rule destination zone"));
    }
    if matches.input_interfaces.len() > 1 {
        return Err(FirewallRenderError::UnsupportedField("rule input interface"));
    }
    if matches.output_interfaces.len() > 1 {
        return Err(FirewallRenderError::UnsupportedField("rule output interface"));
    }
    match direction {
        FirewallDirection::Input => {
            if matches.destination_zones.len() > 0 || matches.output_interfaces.len() > 0 {
                return Err(
                    FirewallRenderError::UnsupportedField(
                        "input rule destination zone or output interface",
                    ),
                );
            }
            push_first(options, "src", &matches.source_zones);
            if matches.input_interfaces.len() > 0 {
                assert(matches@.input_interfaces[0] == matches.input_interfaces@[0]@);
                push_text(options, "device", matches.input_interfaces[0].as_str());
                push_text(options, "direction", "in");
            }
        },
        FirewallDirection::Output => {
            if matches.source_zones.len() > 0 || matches.input_interfaces.len() > 0 {
                return Err(
                    FirewallRenderError::UnsupportedField(
                        "output rule source zone or input interface",
                    ),
                );
            }
            push_first(options, "dest", &matches.destination_zones);
            if matches.output_interfaces.len() > 0 {
                assert(matches@.output_interfaces[0] == matches.output_interfaces@[0]@);
                push_text(options, "device", matches.output_interfaces[0].as_str());
                push_text(options, "direction", "out");
            }
        },
        FirewallDirection::Forward => {
            if matches.input_interfaces.len() > 0 || matches.output_interfaces.len() > 0 {
                return Err(
                    FirewallRenderError::UnsupportedField("forward rule interface matching"),
                );
            }
            push_first(options, "src", &matches.source_zones);
            push_first(options, "dest", &matches.destination_zones);
        },
    }
    Ok(())
}

fn add_single_set_match(matches: &FirewallMatch, options: &mut Vec<RenderedOption>) -> (r: Result<
    (),
    FirewallRenderError,
>)
    ensures
        options_result(r, views(final(options)@)) == with_set(views(old(options)@), matches@),
{
    let a: usize = matches.source_sets.len();
    let b: usize = matches.destination_sets.len();
    if a > 1 || b > 1 || (a == 1 && b == 1) {
        return Err(
            FirewallRenderError::UnsupportedField("fw3/fw4 UCI supports one set match per rule"),
        );
    }
    if a > 0 {
        assert(matches@.source_sets[0] == matches.source_sets@[0]@);
        let mut text = matches.source_sets[0].clone();
        text.append(" src");
        push_option(options, "ipset", text);
    } else if b > 0 {
        assert(matches@.destination_sets[0] == matches.destination_sets@[0]@);
        let mut text = matches.destination_sets[0].clone();
        text.append(" dest");
        push_option(options, "ipset", text);
    }
    Ok(())
}

pub fn texts_of_networks(v: &Vec<IpNetwork>) -> (r: Vec<String>)
    ensures
        views(r@) == network_texts(views(v@)),
{
    let mut r: Vec<String> = Vec::new();
    let mut i: usize = 0;
    while i < v.len()
        invariant
            i <= v@.len(),
            r@.len() == i,
            forall|j: int| 0 <= j < i ==> #[trigger] views(r@)[j] == network_texts(views(v@))[j],
        decreases v@.len() - i,
    {
        r.push(v[i].text());
        i = i + 1;
    }
    assert(views(r@) =~= network_texts(views(v@)));
    r
}

pub fn texts_of_ports(v: &Vec<PortRange>) -> (r: Vec<String>)
    ensures
        views(r@) == port_texts(views(v@)),
{
    let mut r: Vec<String> = Vec::new();
    let mut i: usize = 0;
    while i < v.len()
        invariant
            i <= v@.len(),
            r@.len() == i,
            forall|j: int| 0 <= j < i ==> #[trigger] views(r@)[j] == port_texts(views(v@))[j],
        decreases v@.len() - i,
    {
        r.push(port(v[i]));
        i = i + 1;
    }
    assert(views(r@) =~= port_texts(views(v@)));
    r
}

pub fn texts_of_bytes(v: &Vec<u8>) -> (r: Vec<String>)
    ensures
        views(r@) == byte_texts(views(v@)),
{
    let mut r: Vec<String> = Vec::new();
    let mut i: usize = 0;
    while i < v.len()
        invariant
            i <= v@.len(),
            r@.len() == i,
            forall|j: int| 0 <= j < i ==> #[trigger] views(r@)[j] == byte_texts(views(v@))[j],
        decreases v@.len() - i,
    {
        r.push(decimal_text(v[i] as u64));
        i = i + 1;
    }
    assert(views(r@) =~= byte_texts(views(v@)));
    r
}

fn common_match_lists(matches: &FirewallMatch) -> (r: Vec<RenderedList>)
    ensures
        views(r@) == match_lists(matches@),
{
    let mut lists: Vec<RenderedList> = Vec::new();
    push_filled_list(&mut lists, "src_ip", texts_of_networks(&matches.source_networks));
    push_filled_list(&mut lists, "dest_ip", texts_of_networks(&matches.destination_networks));
    push_filled_list(&mut lists, "src_mac", copy_list(&matches.source_macs));
    push_filled_list(&mut lists, "src_port", texts_of_ports(&matches.source_ports));
    push_filled_list(&mut lists, "dest_port", texts_of_ports(&matches.destination_ports));
    push_filled_list(&mut lists, "icmp_type", texts_of_bytes(&matches.icmp_types));
    lists
}

fn render_filter_rule(rule: &FirewallFilterRule) -> (r: Result<RenderedSection, FirewallRenderError>)
    ensures
        vres(r) == filter_rule_section(rule@),
{
    if rule.verdict == FirewallVerdict::Reject {
        return Err(
            FirewallRenderError::UnsupportedField(
                "per-rule reject kind is not representable by fw3/fw4 UCI",
            ),
        );
    }
    if rule.matches.conntrack_states.len() > 0 {
        return Err(
            FirewallRenderError::UnsupportedField(
                "conntrack state requires an unmanaged raw expression",
            ),
        );
    }
    let mut options: Vec<RenderedOption> = Vec::new();
    push_text(&mut options, "name", rule.id.as_str());
    push_option(&mut options, "enabled", bool_value(rule.enabled));
    push_text(&mut options, "family", family(rule.matches.family));
    push_text(&mut options, "target", verdict(rule.verdict));
    assert(views(options@) =~= seq![
        ("name"@, rule@.id),
        ("enabled"@, flag(rule@.enabled)),
        ("family"@, family_name(rule@.matches.family)),
        ("target"@, verdict_name(rule@.verdict)),
    ]);
    match render_rule_location(rule.direction, &rule.matches, &mut options) {
        Ok(()) => {},
        Err(e) => {
            return Err(e);
        },
    }
    push_protocols(&mut options, &rule.matches.protocols);
    match add_single_set_match(&rule.matches, &mut options) {
        Ok(()) => {},
        Err(e) => {
            return Err(e);
        },
    }
    match rule.rate_limit {
        Some(limit) => {
            let mut text = decimal_text(limit.packets_per_second as u64);
            text.append("/second");
            push_option(&mut options, "limit", text);
            push_option(&mut options, "limit_burst", decimal_text(limit.burst as u64));
        },
        None => {},
    }
    match &rule.log {
        Some(log) => {
            if log.level != FirewallLogLevel::Info {
                return Err(
                    FirewallRenderError::UnsupportedField(
                        "fw3/fw4 UCI does not preserve a per-rule log level",
                    ),
                );
            }
            push_text(&mut options, "log", log.prefix.as_str());
        },
        None => {},
    }
    Ok(
        RenderedSection {
            section_type: "rule",
            options,
            lists: common_match_lists(&rule.matches),
        },
    )
}

fn check_nat_matches(m: &FirewallMatch) -> (r: Option<&'static str>)
    ensures
        text_view(r) == nat_match_error(m@),
{
    if m.conntrack_states.len() > 0 || m.icmp_types.len() > 0 || m.input_interfaces.len() > 0
        || m.output_interfaces.len() > 0 {
        Some("NAT conntrack, ICMP type, or interface matching")
    } else if m.source_zones.len() > 1 {
        Some("NAT source zone")
    } else if m.destination_zones.len() > 1 {
        Some("NAT destination zone")
    } else if m.source_networks.len() > 1 {
        Some("NAT source network")
    } else if m.destination_networks.len() > 1 {
        Some("NAT destination network")
    } else if m.source_ports.len() > 1 {
        Some("NAT source port")
    } else if m.destination_ports.len() > 1 {
        Some("NAT destination port")
    } else {
        None
    }
}

fn render_nat_rule(rule: &FirewallNatRule) -> (r: Result<RenderedSection, FirewallRenderError>)
    ensures
        vres(r) == nat_rule_section(rule@),
{
    match check_nat_matches(&rule.matches) {
        Some(field) => {
            return Err(FirewallRenderError::UnsupportedField(field));
        },
        None => {},
    }
    let mut options: Vec<RenderedOption> = Vec::new();
    push_text(&mut options, "name", rule.id.as_str());
    push_option(&mut options, "enabled", bool_value(rule.enabled));
    push_text(&mut options, "family", family(rule.matches.family));
    assert(views(options@) =~= seq![
        ("name"@, rule@.id),
        ("enabled"@, flag(rule@.enabled)),
        ("family"@, family_name(rule@.matches.family)),
    ]);
    push_first(&mut options, "src", &rule.matches.source_zones);
    push_protocols(&mut options, &rule.matches.protocols);
    add_optional_network(&mut options, "src_ip", &rule.matches.source_networks);
    add_first_port(&mut options, "src_port", &rule.matches.source_ports);
    assert(views(options@) == nat_base(rule@));
    match rule.kind {
        FirewallNatKind::SourceNat | FirewallNatKind::Masquerade => {
            if rule.matches.source_sets.len() > 0 || rule.matches.destination_sets.len() > 0
                || rule.matches.source_macs.len() > 0 {
                return Err(
                    FirewallRenderError::UnsupportedField(
                        "fw3/fw4 nat sections do not support sets or source MACs",
                    ),
                );
            }
            add_optional_network(&mut options, "dest_ip", &rule.matches.destination_networks);
            add_first_port(&mut options, "dest_port", &rule.matches.destination_ports);
            push_address(&mut options, "snat_ip", &rule.translation_address);
            add_optional_port(&mut options, "snat_port", &rule.translation_port);
            let target = if rule.kind == FirewallNatKind::Masquerade {
                "MASQUERADE"
            } else {
                "SNAT"
            };
            push_text(&mut options, "target", target);
            Ok(RenderedSection { section_type: "nat", options, lists: Vec::new() })
        },
        _ => {
            push_first(&mut options, "dest", &rule.matches.destination_zones);
            add_optional_network(&mut options, "src_dip", &rule.matches.destination_networks);
            add_first_port(&mut options, "src_dport", &rule.matches.destination_ports);
            push_address(&mut options, "dest_ip", &rule.translation_address);
            add_optional_port(&mut options, "dest_port", &rule.translation_port);
            push_text(&mut options, "target", "DNAT");
            match add_single_set_match(&rule.matches, &mut options) {
                Ok(()) => {},
                Err(e) => {
                    return Err(e);
                },
            }
            let mut lists: Vec<RenderedList> = Vec::new();
            push_filled_list(&mut lists, "src_mac", copy_list(&rule.matches.source_macs));
            Ok(RenderedSection { section_type: "redirect", options, lists })
        },
    }
}

fn render_entry(entry: &FirewallSetEntry, first: &FirewallSetEntry) -> (r: Option<String>)
    ensures
        opt(r) == entry_text(entry@, first@),
{
    match (first, entry) {
        (FirewallSetEntry::Network(_), FirewallSetEntry::Network(n)) => Some(n.text()),
        (FirewallSetEntry::Mac(_), FirewallSetEntry::Mac(m)) => Some(m.clone()),
        (FirewallSetEntry::Port(_), FirewallSetEntry::Port(p)) => Some(port(*p)),
        _ => None,
    }
}

fn render_set_entries(entries: &Vec<FirewallSetEntry>) -> (r: Option<(&'static str, Vec<String>)>)
    ensures
        match r {
            Some((name, texts)) => {
                &&& entry_texts(views(entries@)) == Some(views(texts@))
                &&& entries@.len() > 0
                &&& name@ == set_match_name(entries@[0]@)
            },
            None => entry_texts(views(entries@)) is None,
        },
{
    if entries.len() == 0 {
        return None;
    }
    let ghost all = views(entries@);
    let ghost f = |x: FirewallSetEntryView| entry_text(x, all[0]);
    assert(all[0] == entries@[0]@);
    let mut texts: Vec<String> = Vec::new();
    let mut i: usize = 0;
    while i < entries.len()
        invariant
            i <= entries@.len(),
            0 < entries@.len(),
            all == views(entries@),
            all[0] == entries@[0]@,
            f == (|x: FirewallSetEntryView| entry_text(x, all[0])),
            texts@.len() == i,
            forall|j: int| 0 <= j < i ==> f(#[trigger] all[j]) is Some,
            forall|j: int| 0 <= j < i ==> #[trigger] views(texts@)[j] == f(all[j])->Some_0,
        decreases entries@.len() - i,
    {
        assert(all[i as int] == entries@[i as int]@);
        match render_entry(&entries[i], &entries[0]) {
            Some(t) => texts.push(t),
            None => {
                assert(f(all[i as int]) is None);
                return None;
            },
        }
        i = i + 1;
    }
    assert(views(texts@) =~= Seq::new(all.len(), |i: int| f(all[i])->Some_0));
    let name = match &entries[0] {
        FirewallSetEntry::Network(_) => "src_net",
        FirewallSetEntry::Mac(_) => "src_mac",
        FirewallSetEntry::Port(_) => "src_port",
    };
    Some((name, texts))
}

fn render_object(object: &FirewallObject, backend: FirewallBackend) -> (r: Result<
    RenderedSection,
    FirewallRenderError,
>)
    ensures
        vres(r) == object_section(object@, backend),
{
    match object {
        FirewallObject::Zone(zone) => {
            let mut options: Vec<RenderedOption> = Vec::new();
            push_text(&mut options, "name", zone.id.as_str());
            push_option(&mut options, "enabled", bool_value(zone.enabled));
            push_text(&mut options, "input", verdict(zone.input));
            push_text(&mut options, "output", verdict(zone.output));
            push_text(&mut options, "forward", verdict(zone.forward));
            push_option(&mut options, "masq", bool_value(zone.masquerade));
            push_option(&mut options, "mtu_fix", bool_value(zone.mtu_fix));
            let mut lists: Vec<RenderedList> = Vec::new();
            push_list(&mut lists, "network", copy_list(&zone.networks));
            let r = RenderedSection { section_type: "zone", options, lists };
            assert(object_section(object@, backend) is Ok);
            assert(r@ =~= object_section(object@, backend)->Ok_0);
            Ok(r)
        },
        FirewallObject::Forwarding(forwarding) => {
            let mut options: Vec<RenderedOption> = Vec::new();
            push_text(&mut options, "name", forwarding.id.as_str());
            push_option(&mut options, "enabled", bool_value(forwarding.enabled));
            push_text(&mut options, "src", forwarding.source_zone.as_str());
            push_text(&mut options, "dest", forwarding.destination_zone.as_str());
            let r = RenderedSection { section_type: "forwarding", options, lists: Vec::new() };
            assert(object_section(object@, backend) is Ok);
            assert(r@ =~= object_section(object@, backend)->Ok_0);
            Ok(r)
        },
        FirewallObject::FilterRule(rule) => render_filter_rule(rule),
        FirewallObject::AddressSet(set) => {
            let (set_match, entries) = match render_set_entries(&set.entries) {
                Some(p) => p,
                None => {
                    return Err(FirewallRenderError::InvalidObject);
                },
            };
            assert(set@.entries[0] == set.entries@[0]@);
            let mut options: Vec<RenderedOption> = Vec::new();
            push_text(&mut options, "name", set.id.as_str());
            push_option(&mut options, "enabled", bool_value(set.enabled));
            push_text(&mut options, "family", family(set.family));
            if backend == FirewallBackend::Fw3 {
                push_text(&mut options, "storage", "hash");
            }
            let mut matched: Vec<String> = Vec::new();
            matched.push(set_match.to_owned());
            assert(views(matched@) =~= seq![set_match@]);
            let mut lists: Vec<RenderedList> = Vec::new();
            push_list(&mut lists, "match", matched);
            push_list(&mut lists, "entry", entries);
            let r = RenderedSection { section_type: "ipset", options, lists };
            assert(object_section(object@, backend) is Ok);
            assert(r@ =~= object_section(object@, backend)->Ok_0);
            Ok(r)
        },
        FirewallObject::NatRule(rule) => render_nat_rule(rule),
    }
}

fn agent_section_name(kind: &str, digest: &str) -> (r: Option<String>)
    ensures
        opt(r) == fresh_section(kind@, digest@),
{
    if !digest_like(digest) {
        return None;
    }
    let prefix = if same(kind, "zone") {
        "mbed_z_"
    } else if same(kind, "forwarding") {
        "mbed_f_"
    } else if same(kind, "filter_rule") {
        "mbed_r_"
    } else if same(kind, "address_set") {
        "mbed_s_"
    } else if same(kind, "nat_rule") {
        "mbed_n_"
    } else {
        return None;
    };
    let cs = chars_of(digest);
    let head = string_of(piece(cs.as_slice(), 0, 16));
    assert(head@ =~= digest@.take(16));
    let mut name = prefix.to_owned();
    name.append(lower_text(head.as_str()).as_str());
    Some(name)
}

fn render_create(
    batch: &mut String,
    section: &str,
    object: &FirewallObject,
    backend: FirewallBackend,
) -> (r: Result<(), FirewallRenderError>)
    ensures
        batch_result(r, final(batch)@) == created(old(batch)@, section@, object@, backend),
{
    let rendered = match render_object(object, backend) {
        Ok(s) => s,
        Err(e) => {
            return Err(e);
        },
    };
    append_create(batch, "firewall", section, rendered.section_type);
    if append_section(batch, "firewall", section, &rendered) {
        Ok(())
    } else {
        Err(FirewallRenderError::UnsafeValue)
    }
}

fn clear_supported(batch: &mut String, kind: &str, section: &str, present: &Vec<String>)
    ensures
        final(batch)@ == cleared_text(
            old(batch)@,
            "firewall"@,
            section@,
            views(present@),
            supported_names(kind@),
            0,
        ),
{
    if same(kind, "zone") {
        let names = [
            "name",
            "enabled",
            "network",
            "input",
            "output",
            "forward",
            "masq",
            "mtu_fix",
        ];
        assert(views(names@) =~= supported_names(kind@));
        append_cleared(batch, "firewall", section, present, &names);
    } else if same(kind, "forwarding") {
        let names = ["name", "enabled", "src", "dest"];
        assert(views(names@) =~= supported_names(kind@));
        append_cleared(batch, "firewall", section, present, &names);
    } else if same(kind, "filter_rule") {
        let names = [
            "name",
            "enabled",
            "family",
            "src",
            "dest",
            "device",
            "direction",
            "ipset",
            "proto",
            "src_ip",
            "src_mac",
            "src_port",
            "dest_ip",
            "dest_port",
            "icmp_type",
            "limit",
            "limit_burst",
            "log",
            "target",
        ];
        assert(views(names@) =~= supported_names(kind@));
        append_cleared(batch, "firewall", section, present, &names);
    } else if same(kind, "address_set") {
        let names = ["name", "enabled", "family", "storage", "match", "entry"];
        assert(views(names@) =~= supported_names(kind@));
        append_cleared(batch, "firewall", section, present, &names);
    } else if same(kind, "nat_rule") {
        let names = [
            "name",
            "enabled",
            "family",
            "src",
            "dest",
            "ipset",
            "proto",
            "src_ip",
            "src_mac",
            "src_port",
            "src_dip",
            "src_dport",
            "dest_ip",
            "dest_port",
            "snat_ip",
            "snat_port",
            "target",
        ];
        assert(views(names@) =~= supported_names(kind@));
        append_cleared(batch, "firewall", section, present, &names);
    } else {
        let names: [&'static str; 0] = [];
        assert(views(names@) =~= supported_names(kind@));
        append_cleared(batch, "firewall", section, present, &names);
    }
}

fn render_update(
    batch: &mut String,
    binding: &OpenWrtObjectBinding,
    object: &FirewallObject,
    backend: FirewallBackend,
) -> (r: Result<(), FirewallRenderError>)
    ensures
        batch_result(r, final(batch)@) == updated(old(batch)@, binding@, object@, backend),
{
    let rendered = match render_object(object, backend) {
        Ok(s) => s,
        Err(e) => {
            return Err(e);
        },
    };
    if !same(rendered.section_type, binding.section_type.as_str()) {
        return Err(FirewallRenderError::PlanMismatch);
    }
    clear_supported(batch, object.kind(), binding.section.as_str(), &binding.present_options);
    if append_section(batch, "firewall", binding.section.as_str(), &rendered) {
        Ok(())
    } else {
        Err(FirewallRenderError::UnsafeValue)
    }
}

fn object_order(object: &FirewallObject) -> (r: Option<u32>)
    ensures
        r == order_of(object@),
{
    match object {
        FirewallObject::FilterRule(value) => Some(value.order),
        FirewallObject::NatRule(value) => Some(value.order),
        _ => None,
    }
}

fn draft_change(
    draft: &mut StageDraft,
    change: &FirewallPlannedChange,
    bindings: &Vec<OpenWrtObjectBinding>,
    backend: FirewallBackend,
) -> (r: Result<(), FirewallRenderError>)
    ensures
        draft_result(r, final(draft)@) == change_drafted(
            old(draft)@,
            change@,
            views(bindings@),
            backend,
        ),
{
    let (object, valid) = match (&change.after, &change.before) {
        (Some(o), _) => (o, change.after_checks.valid),
        (None, Some(o)) => (o, change.before_checks.valid),
        (None, None) => {
            return Err(FirewallRenderError::MissingObject);
        },
    };
    if !valid {
        return Err(FirewallRenderError::InvalidObject);
    }
    if !same(change.diff.object.kind.as_str(), object.kind()) || !same(
        change.diff.object.id.as_str(),
        object.id(),
    ) {
        return Err(FirewallRenderError::PlanMismatch);
    }
    let bound = binding_for(bindings, object.kind(), object.id());
    match change.diff.operation {
        ChangeOperation::Create => {
            if bound.is_some() {
                return Err(FirewallRenderError::DuplicateBinding);
            }
            let digest = match &change.diff.after_digest {
                Some(d) => d,
                None => {
                    return Err(FirewallRenderError::PlanMismatch);
                },
            };
            let section = match agent_section_name(object.kind(), digest.as_str()) {
                Some(s) => s,
                None => {
                    return Err(FirewallRenderError::PlanMismatch);
                },
            };
            if holds(&draft.reserved, section.as_str()) {
                return Err(FirewallRenderError::DuplicateSection);
            }
            match render_create(&mut draft.batch, section.as_str(), object, backend) {
                Ok(()) => {},
                Err(e) => {
                    return Err(e);
                },
            }
            draft.reserved.push(section);
            Ok(())
        },
        ChangeOperation::Update => match bound {
            None => Err(FirewallRenderError::MissingBinding),
            Some(binding) => render_update(&mut draft.batch, binding, object, backend),
        },
        ChangeOperation::Delete => match bound {
            None => Err(FirewallRenderError::MissingBinding),
            Some(binding) => {
                append_delete(&mut draft.batch, "firewall", binding.section.as_str());
                Ok(())
            },
        },
        ChangeOperation::Move => match bound {
            None => Err(FirewallRenderError::MissingBinding),
            Some(binding) => match object_order(object) {
                None => Err(
                    FirewallRenderError::UnsupportedField(
                        "move is only supported for ordered rules",
                    ),
                ),
                Some(order) => {
                    let mut line = "reorder firewall.".to_owned();
                    line.append(binding.section.as_str());
                    line.append("=");
                    line.append(decimal_text(order as u64).as_str());
                    line.append("\n");
                    draft.batch.append(line.as_str());
                    Ok(())
                },
            },
        },
    }
}

fn sections_of_bindings(bindings: &Vec<OpenWrtObjectBinding>) -> (r: Vec<String>)
    ensures
        views(r@) == bound_sections(views(bindings@)),
{
    let mut r: Vec<String> = Vec::new();
    let mut i: usize = 0;
    while i < bindings.len()
        invariant
            i <= bindings@.len(),
            views(r@) =~= bound_sections(views(bindings@)).take(i as int),
        decreases bindings@.len() - i,
    {
        r.push(bindings[i].section.clone());
        i = i + 1;
    }
    assert(bound_sections(views(bindings@)).take(i as int) =~= bound_sections(views(bindings@)));
    r
}

/// Renders changes against bindings and the sections that exist.
pub fn render_openwrt_firewall_stage_inner(
    plan: &FirewallMutationPlan,
    bindings: &Vec<OpenWrtObjectBinding>,
    occupied_sections: &Vec<String>,
    backend: FirewallBackend,
) -> (r: Result<OpenWrtFirewallStage, FirewallRenderError>)
    ensures
        vres(r) == firewall_stage(
            plan@.changes,
            views(bindings@),
            views(occupied_sections@),
            backend,
        ),
{
    if backend != FirewallBackend::Fw3 && backend != FirewallBackend::Fw4 {
        return Err(FirewallRenderError::WrongBackend);
    }
    match validate_bindings(bindings) {
        Ok(()) => {},
        Err(e) => {
            return Err(e);
        },
    }
    if !all_distinct(occupied_sections) {
        return Err(FirewallRenderError::DuplicateSection);
    }
    if occupied_sections.len() > 0 && !bound_sections_reserved(bindings, occupied_sections) {
        return Err(FirewallRenderError::UnsafeBinding);
    }
    let reserved = if occupied_sections.len() > 0 {
        copy_list(occupied_sections)
    } else {
        sections_of_bindings(bindings)
    };
    let mut draft = StageDraft { batch: String::new(), reserved };
    let ghost start = draft@;
    let ghost whole = firewall_stage(
        plan@.changes,
        views(bindings@),
        views(occupied_sections@),
        backend,
    );
    let mut i: usize = 0;
    while i < plan.changes.len()
        invariant
            i <= plan.changes@.len(),
            backend == FirewallBackend::Fw3 || backend == FirewallBackend::Fw4,
            whole == firewall_stage(
                plan@.changes,
                views(bindings@),
                views(occupied_sections@),
                backend,
            ),
            drafted(draft@, views(plan.changes@), views(bindings@), backend, i as int) == drafted(
                start,
                views(plan.changes@),
                views(bindings@),
                backend,
                0,
            ),
            whole == (match drafted(
                start,
                views(plan.changes@),
                views(bindings@),
                backend,
                0,
            ) {
                Err(e) => Err(e),
                Ok(d) => Ok(staged(d, backend)),
            }),
        decreases plan.changes@.len() - i,
    {
        assert(views(plan.changes@)[i as int] == plan.changes@[i as int]@);
        match draft_change(&mut draft, &plan.changes[i], bindings, backend) {
            Ok(()) => {},
            Err(e) => {
                return Err(e);
            },
        }
        if byte_length(draft.batch.as_str()) > MAX_BATCH_BYTES {
            return Err(FirewallRenderError::Capacity);
        }
        i = i + 1;
    }
    let StageDraft { batch, reserved: _ } = draft;
    let mut uci_batch = batch;
    uci_batch.append("commit firewall\n");
    let mut validations: Vec<OpenWrtValidation> = Vec::new();
    if backend == FirewallBackend::Fw3 {
        validations.push(OpenWrtValidation::Fw3PrintIpv4);
        validations.push(OpenWrtValidation::Fw3PrintIpv6);
    } else {
        validations.push(OpenWrtValidation::Fw4Check);
    }
    assert(validations@ =~= validations_of(backend));
    Ok(
        OpenWrtFirewallStage {
            uci_batch,
            validations,
            activation_service: "/etc/init.d/firewall",
            activation_action: "reload",
        },
    )
}

/// Renders changes against bindings alone.
pub fn render_openwrt_firewall_stage(
    plan: &FirewallMutationPlan,
    bindings: &Vec<OpenWrtObjectBinding>,
    backend: FirewallBackend,
) -> (r: Result<OpenWrtFirewallStage, FirewallRenderError>)
    ensures
        vres(r) == firewall_stage(plan@.changes, views(bindings@), Seq::empty(), backend),
{
    let none: Vec<String> = Vec::new();
    render_openwrt_firewall_stage_inner(plan, bindings, &none, backend)
}

/// Renders a plan against the snapshot it was made for, with every existing section reserved.
pub fn render_openwrt_firewall_stage_from_snapshot(
    plan: &FirewallMutationPlan,
    snapshot: &OpenWrtFirewallInventorySnapshot,
    backend: FirewallBackend,
) -> (r: Result<OpenWrtFirewallStage, FirewallRenderError>)
    ensures
        vres(r) == (match plan_matches(plan@.changes, snapshot@.inventory.objects) {
            Err(e) => Err(e),
            Ok(()) => firewall_stage(
                plan@.changes,
                snapshot@.bindings,
                snapshot@.occupied_sections,
                backend,
            ),
        }),
{
    match validate_plan_against_snapshot(&plan.changes, &snapshot.inventory().objects) {
        Ok(()) => {},
        Err(e) => {
            return Err(e);
        },
    }
    render_openwrt_firewall_stage_inner(
        plan,
        snapshot.binding_list(),
        snapshot.occupied_list(),
        backend,
    )
}

} // verus!
