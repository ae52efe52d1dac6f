//! The transaction on the managed table of nftables.

use vstd::prelude::*;

use vstd::string::*;
use vstd::utf8::*;

use crate::firewall_command::{
    FirewallCommand, FirewallCommandError, FirewallCommandErrorView, FirewallCommandExecutor, FirewallCommandOutput,
    FirewallCommandOutputView, FirewallCommandView,
};
use crate::firewall_model::{FirewallMutationPlan, FirewallMutationPlanView};
use crate::firewall_runtime::{
    applied_state, boot_name, bound_encoding, bounded_encoding, encode_applied_generic_firewall_state,
    generic_snapshot, is_boot_name, nftables_from_snapshot, nftables_input, reconcile_nftables_observation,
    render_nftables_stage_from_snapshot, CollectedNftablesObservation, CollectedNftablesObservationView,
    FirewallCanonicalRecord, FirewallCanonicalRecordView, GenericFirewallBackend, GenericFirewallInventorySnapshot,
    GenericFirewallInventorySnapshotView, GenericFirewallObservation, GenericFirewallStateError,
    GenericFirewallStateErrorView, OwnedDigests, OwnedDigestsView,
};
use crate::items::{copy_opt, Item};
use crate::network_reconcile::lemma_verdicts;
use crate::path::{is_plain, is_volatile, join_path, path_join, plain_path, volatile_path};
use crate::text::{ends, has_suffix};
use crate::transaction::{
    bare_run, copy_bytes, failure, first_failure, is_transaction_id, lemma_no_failure, may_replies, reply_views,
    run_all, run_bare, staging_dir_of, staging_directory, staging_root, staging_root_of, transaction_name,
    Invocation, InvocationView, Pending, StagingPlan, StagingPlanView, TransactionState,
};
use crate::views::{group_views, opt, views, vres};

verus! {

broadcast use group_views;

/// Why a transaction was refused or failed.
#[derive(Debug, Clone, PartialEq, Eq)]
pub enum GenericNftablesExecutionError {
    InvalidIdentity,
    InvalidPlan,
    InvalidState,
    UnsafeRuntime,
    SourceDrift,
    Command(FirewallCommandError),
    State(GenericFirewallStateError),
    Io(String),
}

#[verifier::ext_equal]
pub enum GenericNftablesExecutionErrorView {
    InvalidIdentity,
    InvalidPlan,
    InvalidState,
    UnsafeRuntime,
    SourceDrift,
    Command(FirewallCommandErrorView),
    State(GenericFirewallStateErrorView),
    Io(Seq<char>),
}

impl View for GenericNftablesExecutionError {
    type V = GenericNftablesExecutionErrorView;

    open spec fn view(&self) -> GenericNftablesExecutionErrorView {
        match self {
            GenericNftablesExecutionError::InvalidIdentity =>
                GenericNftablesExecutionErrorView::InvalidIdentity,
            GenericNftablesExecutionError::InvalidPlan =>
                GenericNftablesExecutionErrorView::InvalidPlan,
            GenericNftablesExecutionError::InvalidState =>
                GenericNftablesExecutionErrorView::InvalidState,
            GenericNftablesExecutionError::UnsafeRuntime =>
                GenericNftablesExecutionErrorView::UnsafeRuntime,
            GenericNftablesExecutionError::SourceDrift =>
                GenericNftablesExecutionErrorView::SourceDrift,
            GenericNftablesExecutionError::Command(x) => GenericNftablesExecutionErrorView::Command(x@),
            GenericNftablesExecutionError::State(x) => GenericNftablesExecutionErrorView::State(x@),
            GenericNftablesExecutionError::Io(x) => GenericNftablesExecutionErrorView::Io(x@),
        }
    }
}

impl GenericNftablesExecutionErrorView {
    /// The text of the error.
    pub open spec fn message_text(self) -> Seq<char> {
        match self {
            GenericNftablesExecutionErrorView::InvalidIdentity =>
                "generic nftables transaction identity is invalid"@,
            GenericNftablesExecutionErrorView::InvalidPlan =>
                "generic nftables execution plan is invalid"@,
            GenericNftablesExecutionErrorView::InvalidState =>
                "generic nftables transaction ordering is invalid"@,
            GenericNftablesExecutionErrorView::UnsafeRuntime =>
                "generic nftables runtime path is unsafe"@,
            GenericNftablesExecutionErrorView::SourceDrift =>
                "generic nftables source changed before activation"@,
            GenericNftablesExecutionErrorView::Command(x) =>
                "generic nftables command failed: "@ + x.message_text(),
            GenericNftablesExecutionErrorView::State(x) =>
                "generic nftables state failed: "@ + x.message_text(),
            GenericNftablesExecutionErrorView::Io(x) => "generic nftables staging I/O failed: "@ + x,
        }
    }
}

impl GenericNftablesExecutionError {
    /// The text of the error.
    pub fn message(&self) -> (r: String)
        ensures
            r@ == self@.message_text(),
    {
        match self {
            GenericNftablesExecutionError::InvalidIdentity =>
                "generic nftables transaction identity is invalid".to_owned(),
            GenericNftablesExecutionError::InvalidPlan =>
                "generic nftables execution plan is invalid".to_owned(),
            GenericNftablesExecutionError::InvalidState =>
                "generic nftables transaction ordering is invalid".to_owned(),
            GenericNftablesExecutionError::UnsafeRuntime =>
                "generic nftables runtime path is unsafe".to_owned(),
            GenericNftablesExecutionError::SourceDrift =>
                "generic nftables source changed before activation".to_owned(),
            GenericNftablesExecutionError::Command(x) => {
                let mut r = "generic nftables command failed: ".to_owned();
                r.append(x.message().as_str());
                r
            },
            GenericNftablesExecutionError::State(x) => {
                let mut r = "generic nftables state failed: ".to_owned();
                r.append(x.message().as_str());
                r
            },
            GenericNftablesExecutionError::Io(x) => {
                let mut r = "generic nftables staging I/O failed: ".to_owned();
                r.append(x.as_str());
                r
            },
        }
    }
}

/// One transaction on the managed table of a generic system.
#[derive(Debug, PartialEq, Eq)]
pub struct GenericNftablesTransaction {
    runtime_root: String,
    transaction_id: String,
    boot_id: String,
    record: Option<FirewallCanonicalRecord>,
    plan: FirewallMutationPlan,
    state: TransactionState,
    pending: Pending,
    valid: Vec<bool>,
    source_observation: Option<CollectedNftablesObservation>,
    snapshot: Option<GenericFirewallInventorySnapshot>,
    staging_dir: Option<String>,
    ruleset_path: Option<String>,
    applied_canonical_state: Option<Vec<u8>>,
    require_root_runtime: bool,
}

#[verifier::ext_equal]
pub struct GenericNftablesTransactionView {
    pub runtime_root: Seq<char>,
    pub transaction_id: Seq<char>,
    pub boot_id: Seq<char>,
    pub record: Option<FirewallCanonicalRecordView>,
    pub plan: FirewallMutationPlanView,
    pub state: TransactionState,
    pub pending: Pending,
    pub valid: Seq<bool>,
    pub source_observation: Option<CollectedNftablesObservationView>,
    pub snapshot: Option<GenericFirewallInventorySnapshotView>,
    pub staging_dir: Option<Seq<char>>,
    pub ruleset_path: Option<Seq<char>>,
    pub applied_canonical_state: Option<Seq<u8>>,
    pub require_root_runtime: bool,
}

impl View for GenericNftablesTransaction {
    type V = GenericNftablesTransactionView;

    closed spec fn view(&self) -> GenericNftablesTransactionView {
        GenericNftablesTransactionView {
            runtime_root: self.runtime_root@,
            transaction_id: self.transaction_id@,
            boot_id: self.boot_id@,
            record: opt(self.record),
            plan: self.plan@,
            state: self.state,
            pending: self.pending,
            valid: views(self.valid@),
            source_observation: opt(self.source_observation),
            snapshot: opt(self.snapshot),
            staging_dir: opt(self.staging_dir),
            ruleset_path: opt(self.ruleset_path),
            applied_canonical_state: opt(self.applied_canonical_state),
            require_root_runtime: self.require_root_runtime,
        }
    }
}

impl GenericNftablesTransaction {
    /// How far the transaction is.
    pub fn state(&self) -> (r: TransactionState)
        ensures
            r == self@.state,
    {
        self.state
    }

    /// The plan of the transaction.
    pub fn plan(&self) -> (r: &FirewallMutationPlan)
        ensures
            r@ == self@.plan,
    {
        &self.plan
    }

    /// The boot that the transaction belongs to.
    pub fn boot_id(&self) -> (r: &str)
        ensures
            r@ == self@.boot_id,
    {
        self.boot_id.as_str()
    }

    /// The record that the transaction started from, if there is one.
    pub fn record(&self) -> (r: Option<&FirewallCanonicalRecord>)
        ensures
            match r {
                Some(x) => self@.record == Some(x@),
                None => self@.record is None,
            },
    {
        match &self.record {
            Some(x) => Some(x),
            None => None,
        }
    }

    /// The snapshot that the plan is bound to, once there is one.
    pub fn snapshot(&self) -> (r: Option<&GenericFirewallInventorySnapshot>)
        ensures
            match r {
                Some(x) => self@.snapshot == Some(x@),
                None => self@.snapshot is None,
            },
    {
        match &self.snapshot {
            Some(x) => Some(x),
            None => None,
        }
    }

    /// The directory below which the transaction stages.
    pub fn runtime_root(&self) -> (r: &str)
        ensures
            r@ == self@.runtime_root,
    {
        self.runtime_root.as_str()
    }

    /// Whether that directory has to belong to the superuser.
    pub fn require_root_runtime(&self) -> (r: bool)
        ensures
            r == self@.require_root_runtime,
    {
        self.require_root_runtime
    }
}

/// A transaction that waits for no commands.
pub open spec fn settled(t: GenericNftablesTransactionView) -> GenericNftablesTransactionView {
    GenericNftablesTransactionView { pending: Pending::Nothing, ..t }
}

/// The transaction once every command of a step succeeded: as many as the step has.
pub open spec fn stepped(
    t: GenericNftablesTransactionView,
    from: TransactionState,
    pending: Pending,
    to: TransactionState,
    count: nat,
    replies: Seq<Result<FirewallCommandOutputView, FirewallCommandErrorView>>,
) -> Result<GenericNftablesTransactionView, GenericNftablesExecutionErrorView> {
    if t.state != from || t.pending != pending {
        Err(GenericNftablesExecutionErrorView::InvalidState)
    } else if let Some(e) = first_failure(replies, 0) {
        Err(GenericNftablesExecutionErrorView::Command(e))
    } else if replies.len() != count {
        Err(GenericNftablesExecutionErrorView::InvalidState)
    } else {
        Ok(GenericNftablesTransactionView { state: to, pending: Pending::Nothing, ..t })
    }
}

impl GenericNftablesTransaction {
    fn step(
        &mut self,
        from: TransactionState,
        pending: Pending,
        to: TransactionState,
        count: usize,
        replies: &Vec<Result<FirewallCommandOutput, FirewallCommandError>>,
    ) -> (r: Result<(), GenericNftablesExecutionError>)
        ensures
            match r {
                Ok(()) => stepped(
                    old(self)@,
                    from,
                    pending,
                    to,
                    count as nat,
                    reply_views(replies@),
                ) == Ok::<
                    GenericNftablesTransactionView,
                    GenericNftablesExecutionErrorView,
                >(final(self)@),
                Err(e) => stepped(
                    old(self)@,
                    from,
                    pending,
                    to,
                    count as nat,
                    reply_views(replies@),
                ) == Err::<
                    GenericNftablesTransactionView,
                    GenericNftablesExecutionErrorView,
                >(e@) && final(self)@ == settled(old(self)@),
            },
    {
        let waited = self.pending == pending;
        self.pending = Pending::Nothing;
        if self.state != from || !waited {
            return Err(GenericNftablesExecutionError::InvalidState);
        }
        match failure(replies) {
            Some(e) => {
                return Err(GenericNftablesExecutionError::Command(e));
            },
            None => {},
        }
        if replies.len() != count {
            return Err(GenericNftablesExecutionError::InvalidState);
        }
        self.state = to;
        Ok(())
    }

    /// Checks what the commands of the validation replied.
    pub fn finish_validation(
        &mut self,
        replies: &Vec<Result<FirewallCommandOutput, FirewallCommandError>>,
    ) -> (r: Result<(), GenericNftablesExecutionError>)
        ensures
            match r {
                Ok(()) => validated(old(self)@, reply_views(replies@)) == Ok::<
                    GenericNftablesTransactionView,
                    GenericNftablesExecutionErrorView,
                >(final(self)@),
                Err(e) => validated(old(self)@, reply_views(replies@)) == Err::<
                    GenericNftablesTransactionView,
                    GenericNftablesExecutionErrorView,
                >(e@) && final(self)@ == settled(old(self)@),
            },
    {
        self.step(
            TransactionState::Staged,
            Pending::Validation,
            TransactionState::Validated,
            1,
            replies,
        )
    }

    /// Checks what the commands of the activation replied.
    pub fn finish_activation(
        &mut self,
        replies: &Vec<Result<FirewallCommandOutput, FirewallCommandError>>,
    ) -> (r: Result<(), GenericNftablesExecutionError>)
        ensures
            match r {
                Ok(()) => activated(old(self)@, reply_views(replies@)) == Ok::<
                    GenericNftablesTransactionView,
                    GenericNftablesExecutionErrorView,
                >(final(self)@),
                Err(e) => activated(old(self)@, reply_views(replies@)) == Err::<
                    GenericNftablesTransactionView,
                    GenericNftablesExecutionErrorView,
                >(e@) && final(self)@ == settled(old(self)@),
            },
    {
        self.step(
            TransactionState::Validated,
            Pending::Activation,
            TransactionState::Activated,
            1,
            replies,
        )
    }
}

/// The transaction once its stage passed the native checks.
pub open spec fn validated(
    t: GenericNftablesTransactionView,
    replies: Seq<Result<FirewallCommandOutputView, FirewallCommandErrorView>>,
) -> Result<GenericNftablesTransactionView, GenericNftablesExecutionErrorView> {
    stepped(
        t,
        TransactionState::Staged,
        Pending::Validation,
        TransactionState::Validated,
        1,
        replies,
    )
}

/// The transaction once its stage was loaded.
pub open spec fn activated(
    t: GenericNftablesTransactionView,
    replies: Seq<Result<FirewallCommandOutputView, FirewallCommandErrorView>>,
) -> Result<GenericNftablesTransactionView, GenericNftablesExecutionErrorView> {
    stepped(
        t,
        TransactionState::Validated,
        Pending::Activation,
        TransactionState::Activated,
        1,
        replies,
    )
}

/// The snapshot that an observation of the transaction comes to.
pub open spec fn reconciled_now(
    t: GenericNftablesTransactionView,
    observation: CollectedNftablesObservationView,
    digests: OwnedDigestsView,
) -> Result<GenericFirewallInventorySnapshotView, GenericNftablesExecutionErrorView> {
    match generic_snapshot(
        t.record,
        t.boot_id,
        GenericFirewallBackend::Nftables,
        nftables_input(observation),
        digests,
    ) {
        Err(e) => Err(GenericNftablesExecutionErrorView::State(e)),
        Ok(s) => Ok(s),
    }
}

/// The transaction that a plan starts, or why it does not.
pub open spec fn created(
    runtime_root: Seq<char>,
    transaction_id: Seq<char>,
    boot_id: Seq<char>,
    record: Option<FirewallCanonicalRecordView>,
    plan: FirewallMutationPlanView,
    plan_valid: bool,
    require_tmp: bool,
) -> Result<GenericNftablesTransactionView, GenericNftablesExecutionErrorView> {
    if !is_transaction_id(transaction_id) || !is_boot_name(boot_id) {
        Err(GenericNftablesExecutionErrorView::InvalidIdentity)
    } else if !plan_valid {
        Err(GenericNftablesExecutionErrorView::InvalidPlan)
    } else if !is_plain(runtime_root) || (require_tmp && !is_volatile(runtime_root)) {
        Err(GenericNftablesExecutionErrorView::UnsafeRuntime)
    } else {
        Ok(
            GenericNftablesTransactionView {
                runtime_root,
                transaction_id,
                boot_id,
                record,
                plan,
                state: TransactionState::New,
                pending: Pending::Nothing,
                valid: Seq::empty(),
                source_observation: None,
                snapshot: None,
                staging_dir: None,
                ruleset_path: None,
                applied_canonical_state: None,
                require_root_runtime: require_tmp,
            },
        )
    }
}

/// The transaction once an observation was reconciled with the record, and the plan found to render.
pub open spec fn reinspected(
    t: GenericNftablesTransactionView,
    observation: Result<CollectedNftablesObservationView, GenericFirewallStateErrorView>,
    digests: OwnedDigestsView,
    valid: Seq<bool>,
) -> Result<GenericNftablesTransactionView, GenericNftablesExecutionErrorView> {
    if t.state != TransactionState::New {
        Err(GenericNftablesExecutionErrorView::InvalidState)
    } else {
        match observation {
            Err(e) => Err(GenericNftablesExecutionErrorView::State(e)),
            Ok(o) => match reconciled_now(t, o, digests) {
                Err(e) => Err(e),
                Ok(s) => match nftables_from_snapshot(s, valid, t.plan.changes) {
                    Err(e) => Err(GenericNftablesExecutionErrorView::State(e)),
                    Ok(_) => Ok(
                        GenericNftablesTransactionView {
                            source_observation: Some(o),
                            snapshot: Some(s),
                            valid,
                            state: TransactionState::Inspected,
                            ..t
                        },
                    ),
                },
            },
        }
    }
}

/// The path of the staged rule set.
pub open spec fn ruleset_file(t: GenericNftablesTransactionView) -> Seq<char> {
    path_join(staging_dir_of(t.runtime_root, t.transaction_id), "ruleset.nft"@)
}

/// What is to be staged: the complete rule set.
pub open spec fn staging_plan(t: GenericNftablesTransactionView) -> Result<
    StagingPlanView,
    GenericNftablesExecutionErrorView,
> {
    if t.state != TransactionState::Inspected {
        Err(GenericNftablesExecutionErrorView::InvalidState)
    } else {
        match t.snapshot {
            None => Err(GenericNftablesExecutionErrorView::InvalidState),
            Some(s) => match nftables_from_snapshot(s, t.valid, t.plan.changes) {
                Err(e) => Err(GenericNftablesExecutionErrorView::State(e)),
                Ok(stage) => Ok(
                    StagingPlanView {
                        staging_root: staging_root_of(t.runtime_root),
                        staging_dir: staging_dir_of(t.runtime_root, t.transaction_id),
                        file: ruleset_file(t),
                        contents: encode_utf8(stage.ruleset),
                        invocations: Seq::empty(),
                    },
                ),
            },
        }
    }
}

/// The transaction once the rule set was written.
pub open spec fn staged(t: GenericNftablesTransactionView) -> Result<
    GenericNftablesTransactionView,
    GenericNftablesExecutionErrorView,
> {
    if t.state != TransactionState::Inspected || t.pending != Pending::Stage || t.staging_dir is None {
        Err(GenericNftablesExecutionErrorView::InvalidState)
    } else {
        Ok(
            GenericNftablesTransactionView {
                ruleset_path: Some(ruleset_file(t)),
                state: TransactionState::Staged,
                pending: Pending::Nothing,
                ..t
            },
        )
    }
}

/// The check of the staged rule set.
pub open spec fn validation_plan(t: GenericNftablesTransactionView) -> Result<
    Seq<InvocationView>,
    GenericNftablesExecutionErrorView,
> {
    if t.state != TransactionState::Staged {
        Err(GenericNftablesExecutionErrorView::InvalidState)
    } else {
        match t.ruleset_path {
            None => Err(GenericNftablesExecutionErrorView::InvalidState),
            Some(ruleset) => Ok(seq![bare_run(FirewallCommandView::NftCheck { ruleset })]),
        }
    }
}

/// The load of the staged rule set, where a fresh observation is the one that was inspected.
pub open spec fn activation_plan(
    t: GenericNftablesTransactionView,
    observation: Result<CollectedNftablesObservationView, GenericFirewallStateErrorView>,
) -> Result<Seq<InvocationView>, GenericNftablesExecutionErrorView> {
    if t.state != TransactionState::Validated {
        Err(GenericNftablesExecutionErrorView::InvalidState)
    } else {
        match observation {
            Err(e) => Err(GenericNftablesExecutionErrorView::State(e)),
            Ok(o) => if t.source_observation != Some(o) {
                Err(GenericNftablesExecutionErrorView::SourceDrift)
            } else {
                match t.ruleset_path {
                    None => Err(GenericNftablesExecutionErrorView::InvalidState),
                    Some(ruleset) => Ok(seq![bare_run(FirewallCommandView::NftLoad { ruleset })]),
                }
            },
        }
    }
}

/// The transaction once the loaded table was found and its record encoded.
pub open spec fn verified(
    t: GenericNftablesTransactionView,
    observation: Result<CollectedNftablesObservationView, GenericFirewallStateErrorView>,
    digests: OwnedDigestsView,
    encoded: Option<Seq<u8>>,
) -> Result<GenericNftablesTransactionView, GenericNftablesExecutionErrorView> {
    if t.state != TransactionState::Activated {
        Err(GenericNftablesExecutionErrorView::InvalidState)
    } else {
        match observation {
            Err(e) => Err(GenericNftablesExecutionErrorView::State(e)),
            Ok(o) => match t.snapshot {
                None => Err(GenericNftablesExecutionErrorView::InvalidState),
                Some(s) => match applied_state(
                    s,
                    t.valid,
                    t.plan.changes,
                    t.boot_id,
                    nftables_input(o),
                    digests,
                ) {
                    Err(e) => Err(GenericNftablesExecutionErrorView::State(e)),
                    Ok(_) => match bounded_encoding(encoded) {
                        Err(e) => Err(GenericNftablesExecutionErrorView::State(e)),
                        Ok(bytes) => Ok(
                            GenericNftablesTransactionView {
                                applied_canonical_state: Some(bytes),
                                state: TransactionState::Verified,
                                ..t
                            },
                        ),
                    },
                },
            },
        }
    }
}

/// Whether a rollback can still be prepared.
pub open spec fn is_before_activation(s: TransactionState) -> bool {
    s == TransactionState::Inspected || s == TransactionState::Staged || s
        == TransactionState::Validated
}

/// The rule set that restores what was there: the managed table is dropped, and put back as it was
/// listed, where it was there.
pub open spec fn rollback_text(listing: Option<Seq<char>>) -> Seq<char> {
    let dropped = "delete table inet mbed_agent\n"@;
    match listing {
        None => dropped,
        Some(l) => if ends(dropped + l, "\n"@) {
            dropped + l
        } else {
            dropped + l + "\n"@
        },
    }
}

/// What was listed before the activation, where that is known.
pub open spec fn rollback_source(t: GenericNftablesTransactionView) -> Option<
    CollectedNftablesObservationView,
> {
    if is_before_activation(t.state) {
        t.source_observation
    } else {
        None
    }
}

impl GenericNftablesTransaction {
    /// Creates a transaction below the volatile directory.
    pub fn system(
        runtime_root: String,
        transaction_id: &str,
        boot_id: &str,
        record: Option<FirewallCanonicalRecord>,
        plan: FirewallMutationPlan,
        plan_valid: bool,
    ) -> (r: Result<GenericNftablesTransaction, GenericNftablesExecutionError>)
        ensures
            vres(r) == created(
                runtime_root@,
                transaction_id@,
                boot_id@,
                opt(record),
                plan@,
                plan_valid,
                true,
            ),
    {
        GenericNftablesTransaction::new(
            runtime_root,
            transaction_id,
            boot_id,
            record,
            plan,
            plan_valid,
            true,
        )
    }

    /// Creates a transaction. The plan comes with the verdict of the planner on it.
    pub fn new(
        runtime_root: String,
        transaction_id: &str,
        boot_id: &str,
        record: Option<FirewallCanonicalRecord>,
        plan: FirewallMutationPlan,
        plan_valid: bool,
        require_tmp: bool,
    ) -> (r: Result<GenericNftablesTransaction, GenericNftablesExecutionError>)
        ensures
            vres(r) == created(
                runtime_root@,
                transaction_id@,
                boot_id@,
                opt(record),
                plan@,
                plan_valid,
                require_tmp,
            ),
    {
        if !transaction_name(transaction_id) || !boot_name(boot_id) {
            return Err(GenericNftablesExecutionError::InvalidIdentity);
        }
        if !plan_valid {
            return Err(GenericNftablesExecutionError::InvalidPlan);
        }
        if !plain_path(runtime_root.as_str()) || (require_tmp && !volatile_path(
            runtime_root.as_str(),
        )) {
            return Err(GenericNftablesExecutionError::UnsafeRuntime);
        }
        Ok(
            GenericNftablesTransaction {
                runtime_root,
                transaction_id: transaction_id.to_owned(),
                boot_id: boot_id.to_owned(),
                record,
                plan,
                state: TransactionState::New,
                pending: Pending::Nothing,
                valid: Vec::new(),
                source_observation: None,
                snapshot: None,
                staging_dir: None,
                ruleset_path: None,
                applied_canonical_state: None,
                require_root_runtime: require_tmp,
            },
        )
    }

    /// Reconciles one observation with the record. The verdicts are those of the object model on the
    /// recorded objects.
    pub fn reinspect(
        &mut self,
        observation: Result<CollectedNftablesObservation, GenericFirewallStateError>,
        digests: &OwnedDigests,
        valid: Vec<bool>,
    ) -> (r: Result<(), GenericNftablesExecutionError>)
        ensures
            match r {
                Ok(()) => reinspected(old(self)@, vres(observation), digests@, valid@) == Ok::<
                    GenericNftablesTransactionView,
                    GenericNftablesExecutionErrorView,
                >(final(self)@),
                Err(e) => reinspected(old(self)@, vres(observation), digests@, valid@) == Err::<
                    GenericNftablesTransactionView,
                    GenericNftablesExecutionErrorView,
                >(e@) && final(self)@ == old(self)@,
            },
    {
        if self.state != TransactionState::New {
            return Err(GenericNftablesExecutionError::InvalidState);
        }
        let o = match observation {
            Ok(o) => o,
            Err(e) => {
                return Err(GenericNftablesExecutionError::State(e));
            },
        };
        let record = match &self.record {
            Some(rec) => Some(rec),
            None => None,
        };
        let snapshot = match reconcile_nftables_observation(
            record,
            self.boot_id.as_str(),
            &o,
            digests,
        ) {
            Ok(s) => s,
            Err(e) => {
                return Err(GenericNftablesExecutionError::State(e));
            },
        };
        match render_nftables_stage_from_snapshot(&snapshot, valid.as_slice(), &self.plan) {
            Ok(_) => {},
            Err(e) => {
                return Err(GenericNftablesExecutionError::State(e));
            },
        }
        proof {
            lemma_verdicts(valid@);
        }
        self.source_observation = Some(o);
        self.snapshot = Some(snapshot);
        self.valid = valid;
        self.state = TransactionState::Inspected;
        Ok(())
    }

    /// Begins to stage: names the private directory to create and the rule set to write there.
    pub fn begin_stage(&mut self) -> (r: Result<StagingPlan, GenericNftablesExecutionError>)
        ensures
            match r {
                Ok(p) => staging_plan(old(self)@) == Ok::<
                    StagingPlanView,
                    GenericNftablesExecutionErrorView,
                >(p@) && final(self)@ == (GenericNftablesTransactionView {
                    pending: Pending::Stage,
                    ..old(self)@
                }),
                Err(e) => staging_plan(old(self)@) == Err::<
                    StagingPlanView,
                    GenericNftablesExecutionErrorView,
                >(e@) && final(self)@ == old(self)@,
            },
    {
        if self.state != TransactionState::Inspected {
            return Err(GenericNftablesExecutionError::InvalidState);
        }
        proof {
            lemma_verdicts(self.valid@);
        }
        let stage = match &self.snapshot {
            None => {
                return Err(GenericNftablesExecutionError::InvalidState);
            },
            Some(s) => match render_nftables_stage_from_snapshot(
                s,
                self.valid.as_slice(),
                &self.plan,
            ) {
                Ok(stage) => stage,
                Err(e) => {
                    return Err(GenericNftablesExecutionError::State(e));
                },
            },
        };
        let dir = staging_directory(self.runtime_root.as_str(), self.transaction_id.as_str());
        let invocations: Vec<Invocation> = Vec::new();
        let plan = StagingPlan {
            staging_root: staging_root(self.runtime_root.as_str()),
            file: join_path(dir.as_str(), "ruleset.nft"),
            staging_dir: dir,
            contents: copy_bytes(stage.ruleset.as_str().as_bytes()),
            invocations,
        };
        self.pending = Pending::Stage;
        Ok(plan)
    }

    /// Notes that the directory of the stage was created.
    pub fn stage_created(&mut self) -> (r: Result<(), GenericNftablesExecutionError>)
        ensures
            match r {
                Ok(()) => old(self)@.pending == Pending::Stage && final(self)@ == (
                GenericNftablesTransactionView {
                    staging_dir: Some(
                        staging_dir_of(old(self)@.runtime_root, old(self)@.transaction_id),
                    ),
                    ..old(self)@
                }),
                Err(e) => old(self)@.pending != Pending::Stage && e@
                    == GenericNftablesExecutionErrorView::InvalidState && final(self)@ == old(self)@,
            },
    {
        if self.pending != Pending::Stage {
            return Err(GenericNftablesExecutionError::InvalidState);
        }
        self.staging_dir = Some(
            staging_directory(self.runtime_root.as_str(), self.transaction_id.as_str()),
        );
        Ok(())
    }

    /// Notes that the rule set was written.
    pub fn finish_stage(&mut self) -> (r: Result<(), GenericNftablesExecutionError>)
        ensures
            match r {
                Ok(()) => staged(old(self)@) == Ok::<
                    GenericNftablesTransactionView,
                    GenericNftablesExecutionErrorView,
                >(final(self)@),
                Err(e) => staged(old(self)@) == Err::<
                    GenericNftablesTransactionView,
                    GenericNftablesExecutionErrorView,
                >(e@) && final(self)@ == settled(old(self)@),
            },
    {
        let waited = self.pending == Pending::Stage;
        self.pending = Pending::Nothing;
        if self.state != TransactionState::Inspected || !waited || self.staging_dir.is_none() {
            return Err(GenericNftablesExecutionError::InvalidState);
        }
        let dir = staging_directory(self.runtime_root.as_str(), self.transaction_id.as_str());
        self.ruleset_path = Some(join_path(dir.as_str(), "ruleset.nft"));
        self.state = TransactionState::Staged;
        Ok(())
    }

    /// Begins to validate: names the check of the staged rule set.
    pub fn begin_validation(&mut self) -> (r: Result<Vec<Invocation>, GenericNftablesExecutionError>)
        ensures
            match r {
                Ok(v) => validation_plan(old(self)@) == Ok::<
                    Seq<InvocationView>,
                    GenericNftablesExecutionErrorView,
                >(views(v@)) && final(self)@ == (GenericNftablesTransactionView {
                    pending: Pending::Validation,
                    ..old(self)@
                }),
                Err(e) => validation_plan(old(self)@) == Err::<
                    Seq<InvocationView>,
                    GenericNftablesExecutionErrorView,
                >(e@) && final(self)@ == old(self)@,
            },
    {
        if self.state != TransactionState::Staged {
            return Err(GenericNftablesExecutionError::InvalidState);
        }
        let list = match &self.ruleset_path {
            None => {
                return Err(GenericNftablesExecutionError::InvalidState);
            },
            Some(path) => {
                let mut list: Vec<Invocation> = Vec::new();
                list.push(run_bare(FirewallCommand::NftCheck { ruleset: path.clone() }));
                assert(views(list@) =~= seq![
                    bare_run(FirewallCommandView::NftCheck { ruleset: path@ }),
                ]);
                list
            },
        };
        self.pending = Pending::Validation;
        Ok(list)
    }

    /// Begins to activate, once an independent rollback is armed: a fresh observation has to be the one
    /// that was inspected. Names the load of the staged rule set.
    pub fn begin_activation(
        &mut self,
        observation: Result<CollectedNftablesObservation, GenericFirewallStateError>,
    ) -> (r: Result<Vec<Invocation>, GenericNftablesExecutionError>)
        ensures
            match r {
                Ok(v) => activation_plan(old(self)@, vres(observation)) == Ok::<
                    Seq<InvocationView>,
                    GenericNftablesExecutionErrorView,
                >(views(v@)) && final(self)@ == (GenericNftablesTransactionView {
                    pending: Pending::Activation,
                    ..old(self)@
                }),
                Err(e) => activation_plan(old(self)@, vres(observation)) == Err::<
                    Seq<InvocationView>,
                    GenericNftablesExecutionErrorView,
                >(e@) && final(self)@ == old(self)@,
            },
    {
        if self.state != TransactionState::Validated {
            return Err(GenericNftablesExecutionError::InvalidState);
        }
        let fresh = match observation {
            Ok(o) => o,
            Err(e) => {
                return Err(GenericNftablesExecutionError::State(e));
            },
        };
        let unchanged = match &self.source_observation {
            Some(o) => o.alike(&fresh),
            None => false,
        };
        if !unchanged {
            return Err(GenericNftablesExecutionError::SourceDrift);
        }
        let list = match &self.ruleset_path {
            None => {
                return Err(GenericNftablesExecutionError::InvalidState);
            },
            Some(path) => {
                let mut list: Vec<Invocation> = Vec::new();
                list.push(run_bare(FirewallCommand::NftLoad { ruleset: path.clone() }));
                assert(views(list@) =~= seq![
                    bare_run(FirewallCommandView::NftLoad { ruleset: path@ }),
                ]);
                list
            },
        };
        self.pending = Pending::Activation;
        Ok(list)
    }

    /// Runs the checks of the validation, and takes what they replied.
    pub fn validate_stage<E: FirewallCommandExecutor>(
        &mut self,
        executor: &E,
    ) -> (r: Result<(), GenericNftablesExecutionError>)
        ensures
            match validation_plan(old(self)@) {
                Err(e) => r is Err && r->Err_0@ == e && final(self)@ == old(self)@,
                Ok(list) => {
                    let begun = GenericNftablesTransactionView { pending: Pending::Validation, ..old(self)@ };
                    exists|replies: Seq<Result<FirewallCommandOutputView, FirewallCommandErrorView>>|
                        #[trigger] may_replies(executor, list, replies) && match r {
                            Ok(()) => validated(begun, replies) == Ok::<
                                GenericNftablesTransactionView,
                                GenericNftablesExecutionErrorView,
                            >(
                                final(self)@,
                            ),
                            Err(e) => validated(begun, replies) == Err::<
                                GenericNftablesTransactionView,
                                GenericNftablesExecutionErrorView,
                            >(e@)
                                && final(self)@ == settled(begun),
                        }
                },
            },
    {
        let list = match self.begin_validation() {
            Ok(list) => list,
            Err(e) => {
                return Err(e);
            },
        };
        let replies = run_all(executor, list.as_slice());
        assert(may_replies(executor, validation_plan(old(self)@)->Ok_0, reply_views(replies@)));
        self.finish_validation(&replies)
    }

    /// Loads the stage where a fresh observation is the one that was inspected, and takes what the loads
    /// replied. An independent rollback has to be armed before.
    pub fn activate_after_rollback_armed<E: FirewallCommandExecutor>(
        &mut self,
        executor: &E,
        observation: Result<CollectedNftablesObservation, GenericFirewallStateError>,
    ) -> (r: Result<(), GenericNftablesExecutionError>)
        ensures
            match activation_plan(old(self)@, vres(observation)) {
                Err(e) => r is Err && r->Err_0@ == e && final(self)@ == old(self)@,
                Ok(list) => {
                    let begun = GenericNftablesTransactionView { pending: Pending::Activation, ..old(self)@ };
                    exists|replies: Seq<Result<FirewallCommandOutputView, FirewallCommandErrorView>>|
                        #[trigger] may_replies(executor, list, replies) && match r {
                            Ok(()) => activated(begun, replies) == Ok::<
                                GenericNftablesTransactionView,
                                GenericNftablesExecutionErrorView,
                            >(
                                final(self)@,
                            ),
                            Err(e) => activated(begun, replies) == Err::<
                                GenericNftablesTransactionView,
                                GenericNftablesExecutionErrorView,
                            >(e@)
                                && final(self)@ == settled(begun),
                        }
                },
            },
    {
        let list = match self.begin_activation(observation) {
            Ok(list) => list,
            Err(e) => {
                return Err(e);
            },
        };
        let replies = run_all(executor, list.as_slice());
        assert(may_replies(
            executor,
            activation_plan(old(self)@, vres(observation))->Ok_0,
            reply_views(replies@),
        ));
        self.finish_activation(&replies)
    }

    /// Checks the loaded table, and takes the encoding of the state to record.
    pub fn verify(
        &mut self,
        observation: Result<CollectedNftablesObservation, GenericFirewallStateError>,
        digests: &OwnedDigests,
        encoded: Option<Vec<u8>>,
    ) -> (r: Result<(), GenericNftablesExecutionError>)
        ensures
            match r {
                Ok(()) => verified(old(self)@, vres(observation), digests@, opt(encoded)) == Ok::<
                    GenericNftablesTransactionView,
                    GenericNftablesExecutionErrorView,
                >(final(self)@),
                Err(e) => verified(old(self)@, vres(observation), digests@, opt(encoded)) == Err::<
                    GenericNftablesTransactionView,
                    GenericNftablesExecutionErrorView,
                >(e@) && final(self)@ == old(self)@,
            },
    {
        if self.state != TransactionState::Activated {
            return Err(GenericNftablesExecutionError::InvalidState);
        }
        let o = match observation {
            Ok(o) => o,
            Err(e) => {
                return Err(GenericNftablesExecutionError::State(e));
            },
        };
        proof {
            lemma_verdicts(self.valid@);
        }
        match &self.snapshot {
            None => {
                return Err(GenericNftablesExecutionError::InvalidState);
            },
            Some(s) => match encode_applied_generic_firewall_state(
                s,
                self.valid.as_slice(),
                &self.plan,
                self.boot_id.as_str(),
                GenericFirewallObservation::Nftables(o.managed_listing()),
                digests,
            ) {
                Ok(_) => {},
                Err(e) => {
                    return Err(GenericNftablesExecutionError::State(e));
                },
            },
        }
        match bound_encoding(encoded) {
            Err(e) => Err(GenericNftablesExecutionError::State(e)),
            Ok(bytes) => {
                self.applied_canonical_state = Some(bytes);
                self.state = TransactionState::Verified;
                Ok(())
            },
        }
    }

    /// The encoding to record, once the table was verified.
    pub fn verified_canonical_state(&self) -> (r: Result<&Vec<u8>, GenericNftablesExecutionError>)
        ensures
            match r {
                Ok(b) => self@.state == TransactionState::Verified
                    && self@.applied_canonical_state == Some(b@),
                Err(e) => e@ == GenericNftablesExecutionErrorView::InvalidState && (self@.state
                    != TransactionState::Verified || self@.applied_canonical_state is None),
            },
    {
        if self.state != TransactionState::Verified {
            return Err(GenericNftablesExecutionError::InvalidState);
        }
        match &self.applied_canonical_state {
            Some(b) => Ok(b),
            None => Err(GenericNftablesExecutionError::InvalidState),
        }
    }

    fn source(&self) -> (r: Result<&CollectedNftablesObservation, GenericNftablesExecutionError>)
        ensures
            match r {
                Ok(o) => rollback_source(self@) == Some(o@),
                Err(e) => rollback_source(self@) is None && e@
                    == GenericNftablesExecutionErrorView::InvalidState,
            },
    {
        if self.state != TransactionState::Inspected && self.state != TransactionState::Staged
            && self.state != TransactionState::Validated {
            return Err(GenericNftablesExecutionError::InvalidState);
        }
        match &self.source_observation {
            Some(o) => Ok(o),
            None => Err(GenericNftablesExecutionError::InvalidState),
        }
    }

    /// The rule set that restores what was there before the activation.
    pub fn rollback_ruleset(&self) -> (r: Result<Vec<u8>, GenericNftablesExecutionError>)
        ensures
            match r {
                Ok(b) => rollback_source(self@) matches Some(o) && b@ == encode_utf8(
                    rollback_text(o.managed_listing),
                ),
                Err(e) => rollback_source(self@) is None && e@
                    == GenericNftablesExecutionErrorView::InvalidState,
            },
    {
        let observation = match self.source() {
            Ok(o) => o,
            Err(e) => {
                return Err(e);
            },
        };
        let mut text = "delete table inet mbed_agent\n".to_owned();
        if let Some(listing) = observation.managed_listing() {
            text.append(listing);
            if !has_suffix(text.as_str(), "\n") {
                text.append("\n");
            }
        }
        Ok(copy_bytes(text.as_str().as_bytes()))
    }

    /// Whether the managed table was there before the activation.
    pub fn rollback_table_existed(&self) -> (r: Result<bool, GenericNftablesExecutionError>)
        ensures
            match r {
                Ok(b) => rollback_source(self@) matches Some(o) && b == (o.managed_listing is Some),
                Err(e) => rollback_source(self@) is None && e@
                    == GenericNftablesExecutionErrorView::InvalidState,
            },
    {
        match self.source() {
            Ok(o) => Ok(o.managed_listing().is_some()),
            Err(e) => Err(e),
        }
    }

    /// Gives up the stage: the directory that is to be removed, where one was created.
    pub fn discard_stage(&mut self) -> (r: Option<String>)
        ensures
            opt(r) == old(self)@.staging_dir,
            final(self)@ == (GenericNftablesTransactionView {
                staging_dir: None,
                ruleset_path: None,
                ..old(self)@
            }),
    {
        let r = copy_opt(&self.staging_dir);
        self.staging_dir = None;
        self.ruleset_path = None;
        r
    }
}

/// The rule set is loaded only where the native state is exactly the one that was inspected, and only
/// once the check of the same file has succeeded.
pub proof fn law_load_requires_unchanged_state(
    t: GenericNftablesTransactionView,
    observation: Result<CollectedNftablesObservationView, GenericFirewallStateErrorView>,
    replies: Seq<Result<FirewallCommandOutputView, FirewallCommandErrorView>>,
)
    ensures
        activation_plan(t, observation) is Ok ==> t.state == TransactionState::Validated
            && t.source_observation == Some(observation->Ok_0),
        validated(t, replies) matches Ok(n) ==> n.ruleset_path == t.ruleset_path && replies.len() == 1
            && replies[0] is Ok,
{
    if validated(t, replies) is Ok {
        lemma_no_failure(replies, 0, 0);
    }
}

} // verus!
