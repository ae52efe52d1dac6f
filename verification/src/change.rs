//! Planned changes and what they refer to.

use vstd::prelude::*;

use crate::items::{same_opt, copy_opt, Item};
use crate::text::same;
use crate::views::opt;

verus! {

/// Who an object belongs to.
#[derive(Debug, Clone, Copy, PartialEq, Eq, Structural)]
pub enum ObjectOwnership {
    PlatformNative,
    AgentOwned,
}

impl View for ObjectOwnership {
    type V = ObjectOwnership;

    open spec fn view(&self) -> ObjectOwnership {
        *self
    }
}

impl Item for ObjectOwnership {
    fn alike(&self, other: &Self) -> (r: bool) {
        *self == *other
    }

    fn twin(&self) -> (r: Self) {
        *self
    }
}

/// What a planned change does to its object.
#[derive(Debug, Clone, Copy, PartialEq, Eq, Structural)]
pub enum ChangeOperation {
    Create,
    Update,
    Delete,
    Move,
}

impl View for ChangeOperation {
    type V = ChangeOperation;

    open spec fn view(&self) -> ChangeOperation {
        *self
    }
}

impl Item for ChangeOperation {
    fn alike(&self, other: &Self) -> (r: bool) {
        *self == *other
    }

    fn twin(&self) -> (r: Self) {
        *self
    }
}

/// The configuration that an object is part of.
#[derive(Debug, Clone, Copy, PartialEq, Eq, Structural)]
pub enum ConfigDomain {
    Firewall,
    Network,
    Wireless,
}

impl View for ConfigDomain {
    type V = ConfigDomain;

    open spec fn view(&self) -> ConfigDomain {
        *self
    }
}

impl Item for ConfigDomain {
    fn alike(&self, other: &Self) -> (r: bool) {
        *self == *other
    }

    fn twin(&self) -> (r: Self) {
        *self
    }
}

/// How much a plan puts at risk.
#[derive(Debug, Clone, Copy, PartialEq, Eq, Structural)]
pub enum RiskLevel {
    R0,
    R1,
    R2,
    R3,
}

impl View for RiskLevel {
    type V = RiskLevel;

    open spec fn view(&self) -> RiskLevel {
        *self
    }
}

impl Item for RiskLevel {
    fn alike(&self, other: &Self) -> (r: bool) {
        *self == *other
    }

    fn twin(&self) -> (r: Self) {
        *self
    }
}

/// The object that a change is about, and the version it was planned against.
#[derive(Debug, Clone, PartialEq, Eq)]
pub struct ObjectReference {
    pub domain: ConfigDomain,
    pub kind: String,
    pub id: String,
    pub ownership: ObjectOwnership,
    pub expected_version: Option<String>,
}

#[verifier::ext_equal]
pub struct ObjectReferenceView {
    pub domain: ConfigDomain,
    pub kind: Seq<char>,
    pub id: Seq<char>,
    pub ownership: ObjectOwnership,
    pub expected_version: Option<Seq<char>>,
}

impl View for ObjectReference {
    type V = ObjectReferenceView;

    open spec fn view(&self) -> ObjectReferenceView {
        ObjectReferenceView {
            domain: self.domain,
            kind: self.kind@,
            id: self.id@,
            ownership: self.ownership,
            expected_version: opt(self.expected_version),
        }
    }
}

impl Item for ObjectReference {
    fn alike(&self, other: &Self) -> (r: bool) {
        self.domain == other.domain
            && same(self.kind.as_str(), other.kind.as_str())
            && same(self.id.as_str(), other.id.as_str())
            && self.ownership == other.ownership
            && same_opt(&self.expected_version, &other.expected_version)
    }

    fn twin(&self) -> (r: Self) {
        ObjectReference {
            domain: self.domain,
            kind: self.kind.clone(),
            id: self.id.clone(),
            ownership: self.ownership,
            expected_version: copy_opt(&self.expected_version),
        }
    }
}

/// The metadata of one planned change.
#[derive(Debug, Clone, PartialEq, Eq)]
pub struct ObjectDiff {
    pub operation: ChangeOperation,
    pub object: ObjectReference,
    pub before_digest: Option<String>,
    pub after_digest: Option<String>,
}

#[verifier::ext_equal]
pub struct ObjectDiffView {
    pub operation: ChangeOperation,
    pub object: ObjectReferenceView,
    pub before_digest: Option<Seq<char>>,
    pub after_digest: Option<Seq<char>>,
}

impl View for ObjectDiff {
    type V = ObjectDiffView;

    open spec fn view(&self) -> ObjectDiffView {
        ObjectDiffView {
            operation: self.operation,
            object: self.object@,
            before_digest: opt(self.before_digest),
            after_digest: opt(self.after_digest),
        }
    }
}

impl Item for ObjectDiff {
    fn alike(&self, other: &Self) -> (r: bool) {
        self.operation == other.operation
            && self.object.alike(&other.object)
            && same_opt(&self.before_digest, &other.before_digest)
            && same_opt(&self.after_digest, &other.after_digest)
    }

    fn twin(&self) -> (r: Self) {
        ObjectDiff {
            operation: self.operation,
            object: self.object.twin(),
            before_digest: copy_opt(&self.before_digest),
            after_digest: copy_opt(&self.after_digest),
        }
    }
}

/// What the object model says of one object: whether the object is valid, and its digest, which an
/// object that cannot be encoded lacks.
#[derive(Debug, Clone, PartialEq, Eq)]
pub struct ObjectChecks {
    pub valid: bool,
    pub digest: Option<String>,
}

#[verifier::ext_equal]
pub struct ObjectChecksView {
    pub valid: bool,
    pub digest: Option<Seq<char>>,
}

impl View for ObjectChecks {
    type V = ObjectChecksView;

    open spec fn view(&self) -> ObjectChecksView {
        ObjectChecksView {
            valid: self.valid,
            digest: opt(self.digest),
        }
    }
}

impl Item for ObjectChecks {
    fn alike(&self, other: &Self) -> (r: bool) {
        self.valid == other.valid
            && same_opt(&self.digest, &other.digest)
    }

    fn twin(&self) -> (r: Self) {
        ObjectChecks {
            valid: self.valid,
            digest: copy_opt(&self.digest),
        }
    }
}

} // verus!
