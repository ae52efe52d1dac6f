//! Errors of firewall inspection and staging.

use vstd::prelude::*;

use vstd::string::*;

verus! {

/// Why a firewall inspection or stage was refused.
#[derive(Debug, Clone, PartialEq, Eq)]
pub enum FirewallRenderError {
    BackendUnavailable,
    WrongBackend,
    Capacity,
    InvalidObject,
    PlanMismatch,
    MissingObject,
    MissingBinding,
    UnsafeBinding,
    DuplicateBinding,
    DuplicateSection,
    AmbiguousBinding,
    MalformedUci,
    UnsupportedManagedSection(String),
    DuplicateInventoryObject,
    AmbiguousInventory,
    UnsafeValue,
    UnsupportedField(&'static str),
    Output,
}

#[verifier::ext_equal]
pub enum FirewallRenderErrorView {
    BackendUnavailable,
    WrongBackend,
    Capacity,
    InvalidObject,
    PlanMismatch,
    MissingObject,
    MissingBinding,
    UnsafeBinding,
    DuplicateBinding,
    DuplicateSection,
    AmbiguousBinding,
    MalformedUci,
    UnsupportedManagedSection(Seq<char>),
    DuplicateInventoryObject,
    AmbiguousInventory,
    UnsafeValue,
    UnsupportedField(Seq<char>),
    Output,
}

impl View for FirewallRenderError {
    type V = FirewallRenderErrorView;

    open spec fn view(&self) -> FirewallRenderErrorView {
        match self {
            FirewallRenderError::BackendUnavailable => FirewallRenderErrorView::BackendUnavailable,
            FirewallRenderError::WrongBackend => FirewallRenderErrorView::WrongBackend,
            FirewallRenderError::Capacity => FirewallRenderErrorView::Capacity,
            FirewallRenderError::InvalidObject => FirewallRenderErrorView::InvalidObject,
            FirewallRenderError::PlanMismatch => FirewallRenderErrorView::PlanMismatch,
            FirewallRenderError::MissingObject => FirewallRenderErrorView::MissingObject,
            FirewallRenderError::MissingBinding => FirewallRenderErrorView::MissingBinding,
            FirewallRenderError::UnsafeBinding => FirewallRenderErrorView::UnsafeBinding,
            FirewallRenderError::DuplicateBinding => FirewallRenderErrorView::DuplicateBinding,
            FirewallRenderError::DuplicateSection => FirewallRenderErrorView::DuplicateSection,
            FirewallRenderError::AmbiguousBinding => FirewallRenderErrorView::AmbiguousBinding,
            FirewallRenderError::MalformedUci => FirewallRenderErrorView::MalformedUci,
            FirewallRenderError::UnsupportedManagedSection(x) =>
                FirewallRenderErrorView::UnsupportedManagedSection(x@),
            FirewallRenderError::DuplicateInventoryObject =>
                FirewallRenderErrorView::DuplicateInventoryObject,
            FirewallRenderError::AmbiguousInventory => FirewallRenderErrorView::AmbiguousInventory,
            FirewallRenderError::UnsafeValue => FirewallRenderErrorView::UnsafeValue,
            FirewallRenderError::UnsupportedField(x) => FirewallRenderErrorView::UnsupportedField(x@),
            FirewallRenderError::Output => FirewallRenderErrorView::Output,
        }
    }
}

impl FirewallRenderErrorView {
    /// The text of the error.
    pub open spec fn message_text(self) -> Seq<char> {
        match self {
            FirewallRenderErrorView::BackendUnavailable => "firewall write backend is unavailable"@,
            FirewallRenderErrorView::WrongBackend =>
                "the selected backend is not an OpenWrt firewall backend"@,
            FirewallRenderErrorView::Capacity => "firewall staging input exceeds its capacity"@,
            FirewallRenderErrorView::InvalidObject =>
                "firewall mutation plan contains an invalid object"@,
            FirewallRenderErrorView::PlanMismatch => "firewall mutation plan metadata does not match its typed object"@,
            FirewallRenderErrorView::MissingObject =>
                "firewall mutation plan is missing its typed object"@,
            FirewallRenderErrorView::MissingBinding =>
                "an existing firewall object has no fresh local UCI binding"@,
            FirewallRenderErrorView::UnsafeBinding =>
                "a UCI binding contains an unsafe identifier or section selector"@,
            FirewallRenderErrorView::DuplicateBinding => "duplicate UCI object binding"@,
            FirewallRenderErrorView::DuplicateSection =>
                "multiple firewall objects resolve to the same UCI section"@,
            FirewallRenderErrorView::AmbiguousBinding =>
                "UCI firewall inventory contains an ambiguous object binding"@,
            FirewallRenderErrorView::MalformedUci => "UCI firewall inventory output is malformed"@,
            FirewallRenderErrorView::UnsupportedManagedSection(x) =>
                "an Agent-owned UCI firewall section cannot be represented safely: "@ + x,
            FirewallRenderErrorView::DuplicateInventoryObject =>
                "typed firewall inventory contains a duplicate object identity"@,
            FirewallRenderErrorView::AmbiguousInventory => "typed firewall inventory is ambiguous"@,
            FirewallRenderErrorView::UnsafeValue =>
                "unsafe value cannot be represented in a UCI batch"@,
            FirewallRenderErrorView::UnsupportedField(x) =>
                "OpenWrt UCI cannot safely represent: "@ + x,
            FirewallRenderErrorView::Output => "failed to render the firewall staging artifact"@,
        }
    }
}

impl FirewallRenderError {
    /// The text of the error.
    pub fn message(&self) -> (r: String)
        ensures
            r@ == self@.message_text(),
    {
        match self {
            FirewallRenderError::BackendUnavailable =>
                "firewall write backend is unavailable".to_owned(),
            FirewallRenderError::WrongBackend =>
                "the selected backend is not an OpenWrt firewall backend".to_owned(),
            FirewallRenderError::Capacity => "firewall staging input exceeds its capacity".to_owned(),
            FirewallRenderError::InvalidObject =>
                "firewall mutation plan contains an invalid object".to_owned(),
            FirewallRenderError::PlanMismatch => "firewall mutation plan metadata does not match its typed object".to_owned(),
            FirewallRenderError::MissingObject =>
                "firewall mutation plan is missing its typed object".to_owned(),
            FirewallRenderError::MissingBinding =>
                "an existing firewall object has no fresh local UCI binding".to_owned(),
            FirewallRenderError::UnsafeBinding =>
                "a UCI binding contains an unsafe identifier or section selector".to_owned(),
            FirewallRenderError::DuplicateBinding => "duplicate UCI object binding".to_owned(),
            FirewallRenderError::DuplicateSection =>
                "multiple firewall objects resolve to the same UCI section".to_owned(),
            FirewallRenderError::AmbiguousBinding =>
                "UCI firewall inventory contains an ambiguous object binding".to_owned(),
            FirewallRenderError::MalformedUci =>
                "UCI firewall inventory output is malformed".to_owned(),
            FirewallRenderError::UnsupportedManagedSection(x) => {
                let mut r = "an Agent-owned UCI firewall section cannot be represented safely: ".to_owned();
                r.append(x.as_str());
                r
            },
            FirewallRenderError::DuplicateInventoryObject =>
                "typed firewall inventory contains a duplicate object identity".to_owned(),
            FirewallRenderError::AmbiguousInventory =>
                "typed firewall inventory is ambiguous".to_owned(),
            FirewallRenderError::UnsafeValue =>
                "unsafe value cannot be represented in a UCI batch".to_owned(),
            FirewallRenderError::UnsupportedField(x) => {
                let mut r = "OpenWrt UCI cannot safely represent: ".to_owned();
                r.append(x);
                r
            },
            FirewallRenderError::Output => "failed to render the firewall staging artifact".to_owned(),
        }
    }
}

} // verus!
