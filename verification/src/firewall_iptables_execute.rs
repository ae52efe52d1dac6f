//! The transaction on both families of iptables.

use vstd::prelude::*;

use vstd::string::*;
use vstd::utf8::*;

use crate::firewall_command::{
    FirewallCommand, FirewallCommandError, FirewallCommandErrorView, FirewallCommandExecutor, FirewallCommandOutput,
    FirewallCommandOutputView, FirewallCommandView,
};
use crate::firewall_iptables::{IptablesFirewallStage, IptablesFirewallStageView};
use crate::firewall_model::{FirewallMutationPlan, FirewallMutationPlanView};
use crate::firewall_runtime::{
    applied_state, boot_name, bound_encoding, bounded_encoding, copy_state_error,
    encode_applied_generic_firewall_state, generic_snapshot, iptables_from_snapshot, iptables_input, is_boot_name,
    reconcile_iptables_observation, render_iptables_stage_from_snapshot, CollectedIptablesObservation,
    CollectedIptablesObservationView, FirewallCanonicalRecord, FirewallCanonicalRecordView, GenericFirewallBackend,
    GenericFirewallInventorySnapshot, GenericFirewallInventorySnapshotView, GenericFirewallObservation,
    GenericFirewallStateError, GenericFirewallStateErrorView, OwnedDigests, OwnedDigestsView,
};
use crate::items::Item;
use crate::network_reconcile::lemma_verdicts;
use crate::transaction::{
    failure, first_failure, lemma_no_failure, may_replies, reply_views, run_all, run_with, Invocation,
    InvocationView, Pending, TransactionState,
};
use crate::views::{group_views, opt, views, vres};

verus! {

broadcast use group_views;

/// Why a transaction was refused or failed.
#[derive(Debug, Clone, PartialEq, Eq)]
pub enum GenericIptablesExecutionError {
    InvalidIdentity,
    InvalidPlan,
    InvalidState,
    SourceDrift,
    State(GenericFirewallStateError),
    Command(FirewallCommandError),
}

#[verifier::ext_equal]
pub enum GenericIptablesExecutionErrorView {
    InvalidIdentity,
    InvalidPlan,
    InvalidState,
    SourceDrift,
    State(GenericFirewallStateErrorView),
    Command(FirewallCommandErrorView),
}

impl View for GenericIptablesExecutionError {
    type V = GenericIptablesExecutionErrorView;

    open spec fn view(&self) -> GenericIptablesExecutionErrorView {
        match self {
            GenericIptablesExecutionError::InvalidIdentity =>
                GenericIptablesExecutionErrorView::InvalidIdentity,
            GenericIptablesExecutionError::InvalidPlan =>
                GenericIptablesExecutionErrorView::InvalidPlan,
            GenericIptablesExecutionError::InvalidState =>
                GenericIptablesExecutionErrorView::InvalidState,
            GenericIptablesExecutionError::SourceDrift =>
                GenericIptablesExecutionErrorView::SourceDrift,
            GenericIptablesExecutionError::State(x) => GenericIptablesExecutionErrorView::State(x@),
            GenericIptablesExecutionError::Command(x) => GenericIptablesExecutionErrorView::Command(x@),
        }
    }
}

impl GenericIptablesExecutionErrorView {
    /// The text of the error.
    pub open spec fn message_text(self) -> Seq<char> {
        match self {
            GenericIptablesExecutionErrorView::InvalidIdentity =>
                "generic iptables transaction identity is invalid"@,
            GenericIptablesExecutionErrorView::InvalidPlan =>
                "generic iptables execution plan is invalid"@,
            GenericIptablesExecutionErrorView::InvalidState =>
                "generic iptables transaction state is invalid"@,
            GenericIptablesExecutionErrorView::SourceDrift =>
                "generic iptables source state changed before activation"@,
            GenericIptablesExecutionErrorView::State(x) =>
                "generic firewall state failed: "@ + x.message_text(),
            GenericIptablesExecutionErrorView::Command(x) =>
                "generic iptables native command failed: "@ + x.message_text(),
        }
    }
}

impl GenericIptablesExecutionError {
    /// The text of the error.
    pub fn message(&self) -> (r: String)
        ensures
            r@ == self@.message_text(),
    {
        match self {
            GenericIptablesExecutionError::InvalidIdentity =>
                "generic iptables transaction identity is invalid".to_owned(),
            GenericIptablesExecutionError::InvalidPlan =>
                "generic iptables execution plan is invalid".to_owned(),
            GenericIptablesExecutionError::InvalidState =>
                "generic iptables transaction state is invalid".to_owned(),
            GenericIptablesExecutionError::SourceDrift =>
                "generic iptables source state changed before activation".to_owned(),
            GenericIptablesExecutionError::State(x) => {
                let mut r = "generic firewall state failed: ".to_owned();
                r.append(x.message().as_str());
                r
            },
            GenericIptablesExecutionError::Command(x) => {
                let mut r = "generic iptables native command failed: ".to_owned();
                r.append(x.message().as_str());
                r
            },
        }
    }
}

/// One transaction on both families of a generic system. Both restore inputs are tested before
/// either family is changed.
#[derive(Debug, PartialEq, Eq)]
pub struct GenericIptablesTransaction {
    boot_id: String,
    record: Option<FirewallCanonicalRecord>,
    plan: FirewallMutationPlan,
    state: TransactionState,
    pending: Pending,
    valid: Vec<bool>,
    source_observation: Option<CollectedIptablesObservation>,
    snapshot: Option<GenericFirewallInventorySnapshot>,
    stage: Option<IptablesFirewallStage>,
    applied_canonical_state: Option<Vec<u8>>,
}

#[verifier::ext_equal]
pub struct GenericIptablesTransactionView {
    pub boot_id: Seq<char>,
    pub record: Option<FirewallCanonicalRecordView>,
    pub plan: FirewallMutationPlanView,
    pub state: TransactionState,
    pub pending: Pending,
    pub valid: Seq<bool>,
    pub source_observation: Option<CollectedIptablesObservationView>,
    pub snapshot: Option<GenericFirewallInventorySnapshotView>,
    pub stage: Option<IptablesFirewallStageView>,
    pub applied_canonical_state: Option<Seq<u8>>,
}

impl View for GenericIptablesTransaction {
    type V = GenericIptablesTransactionView;

    closed spec fn view(&self) -> GenericIptablesTransactionView {
        GenericIptablesTransactionView {
            boot_id: self.boot_id@,
            record: opt(self.record),
            plan: self.plan@,
            state: self.state,
            pending: self.pending,
            valid: views(self.valid@),
            source_observation: opt(self.source_observation),
            snapshot: opt(self.snapshot),
            stage: opt(self.stage),
            applied_canonical_state: opt(self.applied_canonical_state),
        }
    }
}

impl GenericIptablesTransaction {
    /// How far the transaction is.
    pub fn state(&self) -> (r: TransactionState)
        ensures
            r == self@.state,
    {
        self.state
    }

    /// The plan of the transaction.
    pub fn plan(&self) -> (r: &FirewallMutationPlan)
        ensures
            r@ == self@.plan,
    {
        &self.plan
    }

    /// The boot that the transaction belongs to.
    pub fn boot_id(&self) -> (r: &str)
        ensures
            r@ == self@.boot_id,
    {
        self.boot_id.as_str()
    }

    /// The record that the transaction started from, if there is one.
    pub fn record(&self) -> (r: Option<&FirewallCanonicalRecord>)
        ensures
            match r {
                Some(x) => self@.record == Some(x@),
                None => self@.record is None,
            },
    {
        match &self.record {
            Some(x) => Some(x),
            None => None,
        }
    }

    /// The snapshot that the plan is bound to, once there is one.
    pub fn snapshot(&self) -> (r: Option<&GenericFirewallInventorySnapshot>)
        ensures
            match r {
                Some(x) => self@.snapshot == Some(x@),
                None => self@.snapshot is None,
            },
    {
        match &self.snapshot {
            Some(x) => Some(x),
            None => None,
        }
    }
}

/// A transaction that waits for no commands.
pub open spec fn settled(t: GenericIptablesTransactionView) -> GenericIptablesTransactionView {
    GenericIptablesTransactionView { pending: Pending::Nothing, ..t }
}

/// The transaction once every command of a step succeeded: as many as the step has.
pub open spec fn stepped(
    t: GenericIptablesTransactionView,
    from: TransactionState,
    pending: Pending,
    to: TransactionState,
    count: nat,
    replies: Seq<Result<FirewallCommandOutputView, FirewallCommandErrorView>>,
) -> Result<GenericIptablesTransactionView, GenericIptablesExecutionErrorView> {
    if t.state != from || t.pending != pending {
        Err(GenericIptablesExecutionErrorView::InvalidState)
    } else if let Some(e) = first_failure(replies, 0) {
        Err(GenericIptablesExecutionErrorView::Command(e))
    } else if replies.len() != count {
        Err(GenericIptablesExecutionErrorView::InvalidState)
    } else {
        Ok(GenericIptablesTransactionView { state: to, pending: Pending::Nothing, ..t })
    }
}

impl GenericIptablesTransaction {
    fn step(
        &mut self,
        from: TransactionState,
        pending: Pending,
        to: TransactionState,
        count: usize,
        replies: &Vec<Result<FirewallCommandOutput, FirewallCommandError>>,
    ) -> (r: Result<(), GenericIptablesExecutionError>)
        ensures
            match r {
                Ok(()) => stepped(
                    old(self)@,
                    from,
                    pending,
                    to,
                    count as nat,
                    reply_views(replies@),
                ) == Ok::<
                    GenericIptablesTransactionView,
                    GenericIptablesExecutionErrorView,
                >(final(self)@),
                Err(e) => stepped(
                    old(self)@,
                    from,
                    pending,
                    to,
                    count as nat,
                    reply_views(replies@),
                ) == Err::<
                    GenericIptablesTransactionView,
                    GenericIptablesExecutionErrorView,
                >(e@) && final(self)@ == settled(old(self)@),
            },
    {
        let waited = self.pending == pending;
        self.pending = Pending::Nothing;
        if self.state != from || !waited {
            return Err(GenericIptablesExecutionError::InvalidState);
        }
        match failure(replies) {
            Some(e) => {
                return Err(GenericIptablesExecutionError::Command(e));
            },
            None => {},
        }
        if replies.len() != count {
            return Err(GenericIptablesExecutionError::InvalidState);
        }
        self.state = to;
        Ok(())
    }

    /// Checks what the commands of the validation replied.
    pub fn finish_validation(
        &mut self,
        replies: &Vec<Result<FirewallCommandOutput, FirewallCommandError>>,
    ) -> (r: Result<(), GenericIptablesExecutionError>)
        ensures
            match r {
                Ok(()) => validated(old(self)@, reply_views(replies@)) == Ok::<
                    GenericIptablesTransactionView,
                    GenericIptablesExecutionErrorView,
                >(final(self)@),
                Err(e) => validated(old(self)@, reply_views(replies@)) == Err::<
                    GenericIptablesTransactionView,
                    GenericIptablesExecutionErrorView,
                >(e@) && final(self)@ == settled(old(self)@),
            },
    {
        self.step(
            TransactionState::Staged,
            Pending::Validation,
            TransactionState::Validated,
            2,
            replies,
        )
    }

    /// Checks what the commands of the activation replied.
    pub fn finish_activation(
        &mut self,
        replies: &Vec<Result<FirewallCommandOutput, FirewallCommandError>>,
    ) -> (r: Result<(), GenericIptablesExecutionError>)
        ensures
            match r {
                Ok(()) => activated(old(self)@, reply_views(replies@)) == Ok::<
                    GenericIptablesTransactionView,
                    GenericIptablesExecutionErrorView,
                >(final(self)@),
                Err(e) => activated(old(self)@, reply_views(replies@)) == Err::<
                    GenericIptablesTransactionView,
                    GenericIptablesExecutionErrorView,
                >(e@) && final(self)@ == settled(old(self)@),
            },
    {
        self.step(
            TransactionState::Validated,
            Pending::Activation,
            TransactionState::Activated,
            2,
            replies,
        )
    }
}

/// The transaction once its stage passed the native checks.
pub open spec fn validated(
    t: GenericIptablesTransactionView,
    replies: Seq<Result<FirewallCommandOutputView, FirewallCommandErrorView>>,
) -> Result<GenericIptablesTransactionView, GenericIptablesExecutionErrorView> {
    stepped(
        t,
        TransactionState::Staged,
        Pending::Validation,
        TransactionState::Validated,
        2,
        replies,
    )
}

/// The transaction once its stage was loaded.
pub open spec fn activated(
    t: GenericIptablesTransactionView,
    replies: Seq<Result<FirewallCommandOutputView, FirewallCommandErrorView>>,
) -> Result<GenericIptablesTransactionView, GenericIptablesExecutionErrorView> {
    stepped(
        t,
        TransactionState::Validated,
        Pending::Activation,
        TransactionState::Activated,
        2,
        replies,
    )
}

/// The snapshot that an observation of the transaction comes to.
pub open spec fn reconciled_now(
    t: GenericIptablesTransactionView,
    observation: Result<CollectedIptablesObservationView, GenericFirewallStateErrorView>,
    digests: OwnedDigestsView,
) -> Result<GenericFirewallInventorySnapshotView, GenericIptablesExecutionErrorView> {
    match observation {
        Err(e) => Err(GenericIptablesExecutionErrorView::State(e)),
        Ok(o) => match generic_snapshot(
            t.record,
            t.boot_id,
            GenericFirewallBackend::Iptables,
            iptables_input(o),
            digests,
        ) {
            Err(e) => Err(GenericIptablesExecutionErrorView::State(e)),
            Ok(s) => Ok(s),
        },
    }
}

/// The transaction that a plan starts, or why it does not.
pub open spec fn created(
    boot_id: Seq<char>,
    record: Option<FirewallCanonicalRecordView>,
    plan: FirewallMutationPlanView,
    plan_valid: bool,
) -> Result<GenericIptablesTransactionView, GenericIptablesExecutionErrorView> {
    if !is_boot_name(boot_id) {
        Err(GenericIptablesExecutionErrorView::InvalidIdentity)
    } else if !plan_valid {
        Err(GenericIptablesExecutionErrorView::InvalidPlan)
    } else {
        Ok(
            GenericIptablesTransactionView {
                boot_id,
                record,
                plan,
                state: TransactionState::New,
                pending: Pending::Nothing,
                valid: Seq::empty(),
                source_observation: None,
                snapshot: None,
                stage: None,
                applied_canonical_state: None,
            },
        )
    }
}

/// The transaction once a paired observation was reconciled with the record.
pub open spec fn reinspected(
    t: GenericIptablesTransactionView,
    observation: Result<CollectedIptablesObservationView, GenericFirewallStateErrorView>,
    digests: OwnedDigestsView,
    valid: Seq<bool>,
) -> Result<GenericIptablesTransactionView, GenericIptablesExecutionErrorView> {
    if t.state != TransactionState::New {
        Err(GenericIptablesExecutionErrorView::InvalidState)
    } else {
        match reconciled_now(t, observation, digests) {
            Err(e) => Err(e),
            Ok(s) => Ok(
                GenericIptablesTransactionView {
                    source_observation: Some(observation->Ok_0),
                    snapshot: Some(s),
                    valid,
                    state: TransactionState::Inspected,
                    ..t
                },
            ),
        }
    }
}

/// The transaction once both restore inputs were rendered.
pub open spec fn staged(t: GenericIptablesTransactionView) -> Result<
    GenericIptablesTransactionView,
    GenericIptablesExecutionErrorView,
> {
    if t.state != TransactionState::Inspected {
        Err(GenericIptablesExecutionErrorView::InvalidState)
    } else {
        match t.snapshot {
            None => Err(GenericIptablesExecutionErrorView::InvalidState),
            Some(s) => match iptables_from_snapshot(s, t.valid, t.plan.changes) {
                Err(e) => Err(GenericIptablesExecutionErrorView::State(e)),
                Ok(stage) => Ok(
                    GenericIptablesTransactionView {
                        stage: Some(stage),
                        state: TransactionState::Staged,
                        ..t
                    },
                ),
            },
        }
    }
}

/// The commands that test both families before either is changed.
pub open spec fn test_commands(stage: IptablesFirewallStageView) -> Seq<InvocationView> {
    seq![
        InvocationView {
            command: FirewallCommandView::IptablesRestoreTest { ipv6: false },
            stdin: Some(encode_utf8(stage.ipv4_restore)),
        },
        InvocationView {
            command: FirewallCommandView::IptablesRestoreTest { ipv6: true },
            stdin: Some(encode_utf8(stage.ipv6_restore)),
        },
    ]
}

/// The commands that load the first family and then the second.
pub open spec fn load_commands(stage: IptablesFirewallStageView) -> Seq<InvocationView> {
    seq![
        InvocationView {
            command: FirewallCommandView::IptablesRestore { ipv6: false },
            stdin: Some(encode_utf8(stage.ipv4_restore)),
        },
        InvocationView {
            command: FirewallCommandView::IptablesRestore { ipv6: true },
            stdin: Some(encode_utf8(stage.ipv6_restore)),
        },
    ]
}

/// The checks of a stage.
pub open spec fn validation_plan(t: GenericIptablesTransactionView) -> Result<
    Seq<InvocationView>,
    GenericIptablesExecutionErrorView,
> {
    if t.state != TransactionState::Staged {
        Err(GenericIptablesExecutionErrorView::InvalidState)
    } else {
        match t.stage {
            None => Err(GenericIptablesExecutionErrorView::InvalidState),
            Some(stage) => Ok(test_commands(stage)),
        }
    }
}

/// The loads of a stage, where a fresh observation comes to the same snapshot.
pub open spec fn activation_plan(
    t: GenericIptablesTransactionView,
    observation: Result<CollectedIptablesObservationView, GenericFirewallStateErrorView>,
    digests: OwnedDigestsView,
) -> Result<Seq<InvocationView>, GenericIptablesExecutionErrorView> {
    if t.state != TransactionState::Validated {
        Err(GenericIptablesExecutionErrorView::InvalidState)
    } else {
        match reconciled_now(t, observation, digests) {
            Err(e) => Err(e),
            Ok(fresh) => if t.snapshot != Some(fresh) {
                Err(GenericIptablesExecutionErrorView::SourceDrift)
            } else {
                match t.stage {
                    None => Err(GenericIptablesExecutionErrorView::InvalidState),
                    Some(stage) => Ok(load_commands(stage)),
                }
            },
        }
    }
}

/// The transaction once the loaded state was found and its record encoded.
pub open spec fn verified(
    t: GenericIptablesTransactionView,
    observation: Result<CollectedIptablesObservationView, GenericFirewallStateErrorView>,
    digests: OwnedDigestsView,
    encoded: Option<Seq<u8>>,
) -> Result<GenericIptablesTransactionView, GenericIptablesExecutionErrorView> {
    if t.state != TransactionState::Activated {
        Err(GenericIptablesExecutionErrorView::InvalidState)
    } else {
        match observation {
            Err(e) => Err(GenericIptablesExecutionErrorView::State(e)),
            Ok(o) => match t.snapshot {
                None => Err(GenericIptablesExecutionErrorView::InvalidState),
                Some(s) => match applied_state(
                    s,
                    t.valid,
                    t.plan.changes,
                    t.boot_id,
                    iptables_input(o),
                    digests,
                ) {
                    Err(e) => Err(GenericIptablesExecutionErrorView::State(e)),
                    Ok(_) => match bounded_encoding(encoded) {
                        Err(e) => Err(GenericIptablesExecutionErrorView::State(e)),
                        Ok(bytes) => Ok(
                            GenericIptablesTransactionView {
                                applied_canonical_state: Some(bytes),
                                state: TransactionState::Verified,
                                ..t
                            },
                        ),
                    },
                },
            },
        }
    }
}

impl GenericIptablesTransaction {
    /// Creates a transaction on the system.
    pub fn system(
        boot_id: &str,
        record: Option<FirewallCanonicalRecord>,
        plan: FirewallMutationPlan,
        plan_valid: bool,
    ) -> (r: Result<GenericIptablesTransaction, GenericIptablesExecutionError>)
        ensures
            vres(r) == created(boot_id@, opt(record), plan@, plan_valid),
    {
        GenericIptablesTransaction::new(boot_id, record, plan, plan_valid)
    }

    /// Creates a transaction. The plan comes with the verdict of the planner on it.
    pub fn new(
        boot_id: &str,
        record: Option<FirewallCanonicalRecord>,
        plan: FirewallMutationPlan,
        plan_valid: bool,
    ) -> (r: Result<GenericIptablesTransaction, GenericIptablesExecutionError>)
        ensures
            vres(r) == created(boot_id@, opt(record), plan@, plan_valid),
    {
        if !boot_name(boot_id) {
            return Err(GenericIptablesExecutionError::InvalidIdentity);
        }
        if !plan_valid {
            return Err(GenericIptablesExecutionError::InvalidPlan);
        }
        Ok(
            GenericIptablesTransaction {
                boot_id: boot_id.to_owned(),
                record,
                plan,
                state: TransactionState::New,
                pending: Pending::Nothing,
                valid: Vec::new(),
                source_observation: None,
                snapshot: None,
                stage: None,
                applied_canonical_state: None,
            },
        )
    }

    fn reconcile_now(
        &self,
        observation: &Result<CollectedIptablesObservation, GenericFirewallStateError>,
        digests: &OwnedDigests,
    ) -> (r: Result<GenericFirewallInventorySnapshot, GenericIptablesExecutionError>)
        ensures
            vres(r) == reconciled_now(self@, vres(*observation), digests@),
    {
        match observation {
            Err(e) => Err(GenericIptablesExecutionError::State(copy_state_error(e))),
            Ok(o) => {
                let record = match &self.record {
                    Some(rec) => Some(rec),
                    None => None,
                };
                match reconcile_iptables_observation(record, self.boot_id.as_str(), o, digests) {
                    Ok(s) => Ok(s),
                    Err(e) => Err(GenericIptablesExecutionError::State(e)),
                }
            },
        }
    }

    /// Reconciles one paired observation with the record. The verdicts are those of the object model on
    /// the recorded objects.
    pub fn reinspect(
        &mut self,
        observation: Result<CollectedIptablesObservation, GenericFirewallStateError>,
        digests: &OwnedDigests,
        valid: Vec<bool>,
    ) -> (r: Result<(), GenericIptablesExecutionError>)
        ensures
            match r {
                Ok(()) => reinspected(old(self)@, vres(observation), digests@, valid@) == Ok::<
                    GenericIptablesTransactionView,
                    GenericIptablesExecutionErrorView,
                >(final(self)@),
                Err(e) => reinspected(old(self)@, vres(observation), digests@, valid@) == Err::<
                    GenericIptablesTransactionView,
                    GenericIptablesExecutionErrorView,
                >(e@) && final(self)@ == old(self)@,
            },
    {
        if self.state != TransactionState::New {
            return Err(GenericIptablesExecutionError::InvalidState);
        }
        let snapshot = match self.reconcile_now(&observation, digests) {
            Ok(s) => s,
            Err(e) => {
                return Err(e);
            },
        };
        match observation {
            Err(e) => Err(GenericIptablesExecutionError::State(e)),
            Ok(o) => {
                proof {
                    lemma_verdicts(valid@);
                }
                self.source_observation = Some(o);
                self.snapshot = Some(snapshot);
                self.valid = valid;
                self.state = TransactionState::Inspected;
                Ok(())
            },
        }
    }

    /// Renders both restore inputs from the reconciled snapshot.
    pub fn stage(&mut self) -> (r: Result<(), GenericIptablesExecutionError>)
        ensures
            match r {
                Ok(()) => staged(old(self)@) == Ok::<
                    GenericIptablesTransactionView,
                    GenericIptablesExecutionErrorView,
                >(final(self)@),
                Err(e) => staged(old(self)@) == Err::<
                    GenericIptablesTransactionView,
                    GenericIptablesExecutionErrorView,
                >(e@) && final(self)@ == old(self)@,
            },
    {
        if self.state != TransactionState::Inspected {
            return Err(GenericIptablesExecutionError::InvalidState);
        }
        proof {
            lemma_verdicts(self.valid@);
        }
        let stage = match &self.snapshot {
            None => {
                return Err(GenericIptablesExecutionError::InvalidState);
            },
            Some(s) => match render_iptables_stage_from_snapshot(
                s,
                self.valid.as_slice(),
                &self.plan,
            ) {
                Ok(stage) => stage,
                Err(e) => {
                    return Err(GenericIptablesExecutionError::State(e));
                },
            },
        };
        self.stage = Some(stage);
        self.state = TransactionState::Staged;
        Ok(())
    }

    /// Begins to validate: names the tests of both families.
    pub fn begin_validation(&mut self) -> (r: Result<Vec<Invocation>, GenericIptablesExecutionError>)
        ensures
            match r {
                Ok(v) => validation_plan(old(self)@) == Ok::<
                    Seq<InvocationView>,
                    GenericIptablesExecutionErrorView,
                >(views(v@)) && final(self)@ == (GenericIptablesTransactionView {
                    pending: Pending::Validation,
                    ..old(self)@
                }),
                Err(e) => validation_plan(old(self)@) == Err::<
                    Seq<InvocationView>,
                    GenericIptablesExecutionErrorView,
                >(e@) && final(self)@ == old(self)@,
            },
    {
        if self.state != TransactionState::Staged {
            return Err(GenericIptablesExecutionError::InvalidState);
        }
        let list = match &self.stage {
            None => {
                return Err(GenericIptablesExecutionError::InvalidState);
            },
            Some(stage) => {
                let mut list: Vec<Invocation> = Vec::new();
                list.push(
                    run_with(
                        FirewallCommand::IptablesRestoreTest { ipv6: false },
                        stage.ipv4_restore.as_str(),
                    ),
                );
                list.push(
                    run_with(
                        FirewallCommand::IptablesRestoreTest { ipv6: true },
                        stage.ipv6_restore.as_str(),
                    ),
                );
                assert(views(list@) =~= test_commands(stage@));
                list
            },
        };
        self.pending = Pending::Validation;
        Ok(list)
    }

    /// Begins to activate, once an independent rollback is armed: a fresh observation has to come to the
    /// same snapshot. Names the loads of both families. Where the second fails after the first, both
    /// have to be recovered.
    pub fn begin_activation(
        &mut self,
        observation: &Result<CollectedIptablesObservation, GenericFirewallStateError>,
        digests: &OwnedDigests,
    ) -> (r: Result<Vec<Invocation>, GenericIptablesExecutionError>)
        ensures
            match r {
                Ok(v) => activation_plan(old(self)@, vres(*observation), digests@) == Ok::<
                    Seq<InvocationView>,
                    GenericIptablesExecutionErrorView,
                >(views(v@)) && final(self)@ == (GenericIptablesTransactionView {
                    pending: Pending::Activation,
                    ..old(self)@
                }),
                Err(e) => activation_plan(old(self)@, vres(*observation), digests@) == Err::<
                    Seq<InvocationView>,
                    GenericIptablesExecutionErrorView,
                >(e@) && final(self)@ == old(self)@,
            },
    {
        if self.state != TransactionState::Validated {
            return Err(GenericIptablesExecutionError::InvalidState);
        }
        let fresh = match self.reconcile_now(observation, digests) {
            Ok(s) => s,
            Err(e) => {
                return Err(e);
            },
        };
        let unchanged = match &self.snapshot {
            Some(s) => s.alike(&fresh),
            None => false,
        };
        if !unchanged {
            return Err(GenericIptablesExecutionError::SourceDrift);
        }
        let list = match &self.stage {
            None => {
                return Err(GenericIptablesExecutionError::InvalidState);
            },
            Some(stage) => {
                let mut list: Vec<Invocation> = Vec::new();
                list.push(
                    run_with(
                        FirewallCommand::IptablesRestore { ipv6: false },
                        stage.ipv4_restore.as_str(),
                    ),
                );
                list.push(
                    run_with(
                        FirewallCommand::IptablesRestore { ipv6: true },
                        stage.ipv6_restore.as_str(),
                    ),
                );
                assert(views(list@) =~= load_commands(stage@));
                list
            },
        };
        self.pending = Pending::Activation;
        Ok(list)
    }

    /// Runs the checks of the validation, and takes what they replied.
    pub fn validate_stage<E: FirewallCommandExecutor>(
        &mut self,
        executor: &E,
    ) -> (r: Result<(), GenericIptablesExecutionError>)
        ensures
            match validation_plan(old(self)@) {
                Err(e) => r is Err && r->Err_0@ == e && final(self)@ == old(self)@,
                Ok(list) => {
                    let begun = GenericIptablesTransactionView { pending: Pending::Validation, ..old(self)@ };
                    exists|replies: Seq<Result<FirewallCommandOutputView, FirewallCommandErrorView>>|
                        #[trigger] may_replies(executor, list, replies) && match r {
                            Ok(()) => validated(begun, replies) == Ok::<
                                GenericIptablesTransactionView,
                                GenericIptablesExecutionErrorView,
                            >(
                                final(self)@,
                            ),
                            Err(e) => validated(begun, replies) == Err::<
                                GenericIptablesTransactionView,
                                GenericIptablesExecutionErrorView,
                            >(e@)
                                && final(self)@ == settled(begun),
                        }
                },
            },
    {
        let list = match self.begin_validation() {
            Ok(list) => list,
            Err(e) => {
                return Err(e);
            },
        };
        let replies = run_all(executor, list.as_slice());
        assert(may_replies(executor, validation_plan(old(self)@)->Ok_0, reply_views(replies@)));
        self.finish_validation(&replies)
    }

    /// Loads the stage where a fresh observation is the one that was inspected, and takes what the loads
    /// replied. An independent rollback has to be armed before.
    pub fn activate_after_rollback_armed<E: FirewallCommandExecutor>(
        &mut self,
        executor: &E,
        observation: &Result<CollectedIptablesObservation, GenericFirewallStateError>,
        digests: &OwnedDigests,
    ) -> (r: Result<(), GenericIptablesExecutionError>)
        ensures
            match activation_plan(old(self)@, vres(*observation), digests@) {
                Err(e) => r is Err && r->Err_0@ == e && final(self)@ == old(self)@,
                Ok(list) => {
                    let begun = GenericIptablesTransactionView { pending: Pending::Activation, ..old(self)@ };
                    exists|replies: Seq<Result<FirewallCommandOutputView, FirewallCommandErrorView>>|
                        #[trigger] may_replies(executor, list, replies) && match r {
                            Ok(()) => activated(begun, replies) == Ok::<
                                GenericIptablesTransactionView,
                                GenericIptablesExecutionErrorView,
                            >(
                                final(self)@,
                            ),
                            Err(e) => activated(begun, replies) == Err::<
                                GenericIptablesTransactionView,
                                GenericIptablesExecutionErrorView,
                            >(e@)
                                && final(self)@ == settled(begun),
                        }
                },
            },
    {
        let list = match self.begin_activation(observation, digests) {
            Ok(list) => list,
            Err(e) => {
                return Err(e);
            },
        };
        let replies = run_all(executor, list.as_slice());
        assert(may_replies(
            executor,
            activation_plan(old(self)@, vres(*observation), digests@)->Ok_0,
            reply_views(replies@),
        ));
        self.finish_activation(&replies)
    }

    /// Checks both live families, and takes the encoding of the state to record.
    pub fn verify(
        &mut self,
        observation: &Result<CollectedIptablesObservation, GenericFirewallStateError>,
        digests: &OwnedDigests,
        encoded: Option<Vec<u8>>,
    ) -> (r: Result<(), GenericIptablesExecutionError>)
        ensures
            match r {
                Ok(()) => verified(old(self)@, vres(*observation), digests@, opt(encoded)) == Ok::<
                    GenericIptablesTransactionView,
                    GenericIptablesExecutionErrorView,
                >(final(self)@),
                Err(e) => verified(old(self)@, vres(*observation), digests@, opt(encoded)) == Err::<
                    GenericIptablesTransactionView,
                    GenericIptablesExecutionErrorView,
                >(e@) && final(self)@ == old(self)@,
            },
    {
        if self.state != TransactionState::Activated {
            return Err(GenericIptablesExecutionError::InvalidState);
        }
        let o = match observation {
            Ok(o) => o,
            Err(e) => {
                return Err(GenericIptablesExecutionError::State(copy_state_error(e)));
            },
        };
        proof {
            lemma_verdicts(self.valid@);
        }
        match &self.snapshot {
            None => {
                return Err(GenericIptablesExecutionError::InvalidState);
            },
            Some(s) => match encode_applied_generic_firewall_state(
                s,
                self.valid.as_slice(),
                &self.plan,
                self.boot_id.as_str(),
                GenericFirewallObservation::Iptables {
                    ipv4_save: o.ipv4_save(),
                    ipv6_save: o.ipv6_save(),
                },
                digests,
            ) {
                Ok(_) => {},
                Err(e) => {
                    return Err(GenericIptablesExecutionError::State(e));
                },
            },
        }
        match bound_encoding(encoded) {
            Err(e) => Err(GenericIptablesExecutionError::State(e)),
            Ok(bytes) => {
                self.applied_canonical_state = Some(bytes);
                self.state = TransactionState::Verified;
                Ok(())
            },
        }
    }

    /// The encoding to record, once both families were verified.
    pub fn verified_canonical_state(&self) -> (r: Result<&Vec<u8>, GenericIptablesExecutionError>)
        ensures
            match r {
                Ok(b) => self@.state == TransactionState::Verified
                    && self@.applied_canonical_state == Some(b@),
                Err(e) => e@ == GenericIptablesExecutionErrorView::InvalidState && (self@.state
                    != TransactionState::Verified || self@.applied_canonical_state is None),
            },
    {
        if self.state != TransactionState::Verified {
            return Err(GenericIptablesExecutionError::InvalidState);
        }
        match &self.applied_canonical_state {
            Some(b) => Ok(b),
            None => Err(GenericIptablesExecutionError::InvalidState),
        }
    }

    /// What both families were before the activation.
    pub fn source_observation(&self) -> (r: Result<
        &CollectedIptablesObservation,
        GenericIptablesExecutionError,
    >)
        ensures
            match r {
                Ok(o) => self@.state != TransactionState::New && self@.source_observation == Some(o@),
                Err(e) => e@ == GenericIptablesExecutionErrorView::InvalidState && (self@.state
                    == TransactionState::New || self@.source_observation is None),
            },
    {
        if self.state == TransactionState::New {
            return Err(GenericIptablesExecutionError::InvalidState);
        }
        match &self.source_observation {
            Some(o) => Ok(o),
            None => Err(GenericIptablesExecutionError::InvalidState),
        }
    }

    /// Gives up the stage.
    pub fn discard_stage(&mut self)
        ensures
            final(self)@ == (GenericIptablesTransactionView { stage: None, ..old(self)@ }),
    {
        self.stage = None;
    }
}

/// Neither family is loaded unless both were tested: the loads are named only once every test has
/// succeeded, and only where nothing has changed since the inspection.
pub proof fn law_loads_follow_both_tests(
    t: GenericIptablesTransactionView,
    observation: Result<CollectedIptablesObservationView, GenericFirewallStateErrorView>,
    digests: OwnedDigestsView,
    replies: Seq<Result<FirewallCommandOutputView, FirewallCommandErrorView>>,
)
    ensures
        activation_plan(t, observation, digests) is Ok ==> t.state == TransactionState::Validated
            && t.snapshot == Some(reconciled_now(t, observation, digests)->Ok_0),
        validated(t, replies) matches Ok(n) ==> n.state == TransactionState::Validated && replies.len()
            == 2 && replies[0] is Ok && replies[1] is Ok,
{
    if validated(t, replies) is Ok {
        lemma_no_failure(replies, 0, 0);
        lemma_no_failure(replies, 0, 1);
    }
}

} // verus!
