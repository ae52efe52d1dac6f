//! The transaction on the volatile routes of the agent.

use vstd::prelude::*;

use vstd::string::*;
use vstd::utf8::*;

use crate::firewall_command::{
    FirewallCommand, FirewallCommandError, FirewallCommandErrorView, FirewallCommandExecutor, FirewallCommandOutput,
    FirewallCommandOutputView, FirewallCommandView,
};
use crate::firewall_runtime::{boot_name, is_boot_name};
use crate::items::{copy_opt, Item};
use crate::network_model::{
    NetworkInventory, NetworkInventoryView, NetworkMutationPlan, NetworkMutationPlanView, NetworkObject,
    NetworkPlannedChange, NetworkPlannedChangeView,
};
use crate::network_reconcile::{
    any_profile, lemma_verdicts, links_reconciled, reconcile_runtime_network_inventory,
    reconcile_runtime_network_inventory_with_links, record_view, recorded_state,
    runtime_canonical_includes_interfaces, runtime_reconciled, RuntimeCanonicalRecord, RuntimeCanonicalRecordView,
    RuntimeRouteCanonicalState, RuntimeRouteCanonicalStateView, RuntimeRouteSnapshot, RuntimeRouteSnapshotView,
};
use crate::network_runtime::{lemma_bytes, RuleAnswer, RuleAnswerView, RuntimeNetworkInventoryError};
use crate::network_runtime_stage::{
    inventory_view, render_runtime_route_stage, route_draft, seal_runtime_route_stage, sealed, RuntimeRouteStage,
    RuntimeRouteStageView,
};
use crate::path::{is_plain, is_volatile, join_path, path_join, plain_path, volatile_path};
use crate::text::{utf8_text, utf8_value};
use crate::transaction::{
    bare_run, copy_bytes, copy_error, may_reply, reply_views, run_bare, run_one, same_bytes, staging_dir_of,
    staging_directory, staging_root, staging_root_of, Invocation, InvocationView, Pending, TransactionState,
};
use crate::views::{group_views, lvres, opt, views, vres};

verus! {

broadcast use group_views;

/// Why a transaction was refused or failed.
#[derive(Debug, Clone, PartialEq, Eq)]
pub enum GenericRuntimeRouteExecutionError {
    InvalidIdentity,
    InvalidPlan,
    InvalidState,
    Inspection,
    StagedDrift,
    SourceDrift,
    Command(FirewallCommandError),
    Inventory(RuntimeNetworkInventoryError),
    Io(String),
}

#[verifier::ext_equal]
pub enum GenericRuntimeRouteExecutionErrorView {
    InvalidIdentity,
    InvalidPlan,
    InvalidState,
    Inspection,
    StagedDrift,
    SourceDrift,
    Command(FirewallCommandErrorView),
    Inventory(RuntimeNetworkInventoryError),
    Io(Seq<char>),
}

impl View for GenericRuntimeRouteExecutionError {
    type V = GenericRuntimeRouteExecutionErrorView;

    open spec fn view(&self) -> GenericRuntimeRouteExecutionErrorView {
        match self {
            GenericRuntimeRouteExecutionError::InvalidIdentity =>
                GenericRuntimeRouteExecutionErrorView::InvalidIdentity,
            GenericRuntimeRouteExecutionError::InvalidPlan =>
                GenericRuntimeRouteExecutionErrorView::InvalidPlan,
            GenericRuntimeRouteExecutionError::InvalidState =>
                GenericRuntimeRouteExecutionErrorView::InvalidState,
            GenericRuntimeRouteExecutionError::Inspection =>
                GenericRuntimeRouteExecutionErrorView::Inspection,
            GenericRuntimeRouteExecutionError::StagedDrift =>
                GenericRuntimeRouteExecutionErrorView::StagedDrift,
            GenericRuntimeRouteExecutionError::SourceDrift =>
                GenericRuntimeRouteExecutionErrorView::SourceDrift,
            GenericRuntimeRouteExecutionError::Command(x) =>
                GenericRuntimeRouteExecutionErrorView::Command(x@),
            GenericRuntimeRouteExecutionError::Inventory(x) =>
                GenericRuntimeRouteExecutionErrorView::Inventory(x@),
            GenericRuntimeRouteExecutionError::Io(x) => GenericRuntimeRouteExecutionErrorView::Io(x@),
        }
    }
}

impl GenericRuntimeRouteExecutionErrorView {
    /// The text of the error.
    pub open spec fn message_text(self) -> Seq<char> {
        match self {
            GenericRuntimeRouteExecutionErrorView::InvalidIdentity =>
                "invalid transaction identity, runtime root, or execution plan"@,
            GenericRuntimeRouteExecutionErrorView::InvalidPlan => "invalid execution plan"@,
            GenericRuntimeRouteExecutionErrorView::InvalidState => "invalid transaction state"@,
            GenericRuntimeRouteExecutionErrorView::Inspection => "runtime route inspection failed"@,
            GenericRuntimeRouteExecutionErrorView::StagedDrift => "staged route artifact changed"@,
            GenericRuntimeRouteExecutionErrorView::SourceDrift => "runtime route source changed"@,
            GenericRuntimeRouteExecutionErrorView::Command(x) => x.message_text(),
            GenericRuntimeRouteExecutionErrorView::Inventory(x) => x.message_text(),
            GenericRuntimeRouteExecutionErrorView::Io(x) => x,
        }
    }
}

impl GenericRuntimeRouteExecutionError {
    /// The text of the error.
    pub fn message(&self) -> (r: String)
        ensures
            r@ == self@.message_text(),
    {
        match self {
            GenericRuntimeRouteExecutionError::InvalidIdentity =>
                "invalid transaction identity, runtime root, or execution plan".to_owned(),
            GenericRuntimeRouteExecutionError::InvalidPlan => "invalid execution plan".to_owned(),
            GenericRuntimeRouteExecutionError::InvalidState => "invalid transaction state".to_owned(),
            GenericRuntimeRouteExecutionError::Inspection =>
                "runtime route inspection failed".to_owned(),
            GenericRuntimeRouteExecutionError::StagedDrift =>
                "staged route artifact changed".to_owned(),
            GenericRuntimeRouteExecutionError::SourceDrift => "runtime route source changed".to_owned(),
            GenericRuntimeRouteExecutionError::Command(x) => x.message(),
            GenericRuntimeRouteExecutionError::Inventory(x) => x.message(),
            GenericRuntimeRouteExecutionError::Io(x) => x.clone(),
        }
    }
}

/// One transaction on the volatile routes, rules and profiles of the agent.
#[derive(Debug, PartialEq, Eq)]
pub struct GenericRuntimeRouteTransaction {
    runtime_root: String,
    transaction_id: String,
    boot_id: String,
    record: Option<RuntimeCanonicalRecord>,
    plan: NetworkMutationPlan,
    state: TransactionState,
    pending: Pending,
    snapshot: Option<RuntimeRouteSnapshot>,
    rendered: Option<RuntimeRouteStage>,
    drafted: Option<RuntimeRouteCanonicalState>,
    staging_dir: Option<String>,
    apply_path: Option<String>,
    rollback_path: Option<String>,
    verified_canonical: Option<Vec<u8>>,
    require_tmp: bool,
}

#[verifier::ext_equal]
pub struct GenericRuntimeRouteTransactionView {
    pub runtime_root: Seq<char>,
    pub transaction_id: Seq<char>,
    pub boot_id: Seq<char>,
    pub record: Option<RuntimeCanonicalRecordView>,
    pub plan: NetworkMutationPlanView,
    pub state: TransactionState,
    pub pending: Pending,
    pub snapshot: Option<RuntimeRouteSnapshotView>,
    pub rendered: Option<RuntimeRouteStageView>,
    pub drafted: Option<RuntimeRouteCanonicalStateView>,
    pub staging_dir: Option<Seq<char>>,
    pub apply_path: Option<Seq<char>>,
    pub rollback_path: Option<Seq<char>>,
    pub verified_canonical: Option<Seq<u8>>,
    pub require_tmp: bool,
}

impl View for GenericRuntimeRouteTransaction {
    type V = GenericRuntimeRouteTransactionView;

    closed spec fn view(&self) -> GenericRuntimeRouteTransactionView {
        GenericRuntimeRouteTransactionView {
            runtime_root: self.runtime_root@,
            transaction_id: self.transaction_id@,
            boot_id: self.boot_id@,
            record: opt(self.record),
            plan: self.plan@,
            state: self.state,
            pending: self.pending,
            snapshot: opt(self.snapshot),
            rendered: opt(self.rendered),
            drafted: opt(self.drafted),
            staging_dir: opt(self.staging_dir),
            apply_path: opt(self.apply_path),
            rollback_path: opt(self.rollback_path),
            verified_canonical: opt(self.verified_canonical),
            require_tmp: self.require_tmp,
        }
    }
}

impl GenericRuntimeRouteTransaction {
    /// How far the transaction is.
    pub fn state(&self) -> (r: TransactionState)
        ensures
            r == self@.state,
    {
        self.state
    }

    /// The plan of the transaction.
    pub fn plan(&self) -> (r: &NetworkMutationPlan)
        ensures
            r@ == self@.plan,
    {
        &self.plan
    }

    /// The directory below which the transaction stages.
    pub fn runtime_root(&self) -> (r: &str)
        ensures
            r@ == self@.runtime_root,
    {
        self.runtime_root.as_str()
    }

    /// Whether the directory has to be a volatile one.
    pub fn require_tmp(&self) -> (r: bool)
        ensures
            r == self@.require_tmp,
    {
        self.require_tmp
    }

    /// The staged batch that applies the plan, once it was staged.
    pub fn apply_path(&self) -> (r: Option<&str>)
        ensures
            match r {
                Some(x) => self@.apply_path == Some(x@),
                None => self@.apply_path is None,
            },
    {
        match &self.apply_path {
            Some(x) => Some(x.as_str()),
            None => None,
        }
    }

    /// The record that the plan leads to, once the plan was bound.
    pub fn drafted(&self) -> (r: Option<&RuntimeRouteCanonicalState>)
        ensures
            match r {
                Some(x) => self@.drafted == Some(x@),
                None => self@.drafted is None,
            },
    {
        match &self.drafted {
            Some(x) => Some(x),
            None => None,
        }
    }
}

/// What is to be staged: two batches in a directory of their own.
#[derive(Debug, PartialEq, Eq)]
pub struct RouteStagingPlan {
    pub staging_root: String,
    pub staging_dir: String,
    pub apply_path: String,
    pub apply_batch: String,
    pub rollback_path: String,
    pub rollback_batch: String,
}

#[verifier::ext_equal]
pub struct RouteStagingPlanView {
    pub staging_root: Seq<char>,
    pub staging_dir: Seq<char>,
    pub apply_path: Seq<char>,
    pub apply_batch: Seq<char>,
    pub rollback_path: Seq<char>,
    pub rollback_batch: Seq<char>,
}

impl View for RouteStagingPlan {
    type V = RouteStagingPlanView;

    open spec fn view(&self) -> RouteStagingPlanView {
        RouteStagingPlanView {
            staging_root: self.staging_root@,
            staging_dir: self.staging_dir@,
            apply_path: self.apply_path@,
            apply_batch: self.apply_batch@,
            rollback_path: self.rollback_path@,
            rollback_batch: self.rollback_batch@,
        }
    }
}

/// The documents that the replies from `i` on print.
pub open spec fn documents_from(
    texts: Seq<Seq<char>>,
    replies: Seq<Result<FirewallCommandOutputView, FirewallCommandErrorView>>,
    i: int,
) -> Result<Seq<Seq<char>>, GenericRuntimeRouteExecutionErrorView>
    decreases replies.len() - i,
{
    if i < 0 || i >= replies.len() {
        Ok(texts)
    } else {
        match replies[i] {
            Err(e) => Err(GenericRuntimeRouteExecutionErrorView::Command(e)),
            Ok(o) => match utf8_value(o.stdout) {
                None => Err(GenericRuntimeRouteExecutionErrorView::Inspection),
                Some(s) => documents_from(texts.push(s), replies, i + 1),
            },
        }
    }
}

/// The documents of an inspection: one for each of its commands.
pub open spec fn documents(
    replies: Seq<Result<FirewallCommandOutputView, FirewallCommandErrorView>>,
    count: nat,
) -> Result<Seq<Seq<char>>, GenericRuntimeRouteExecutionErrorView> {
    match documents_from(Seq::empty(), replies, 0) {
        Err(e) => Err(e),
        Ok(texts) => if texts.len() == count {
            Ok(texts)
        } else {
            Err(GenericRuntimeRouteExecutionErrorView::Inspection)
        },
    }
}

/// Whether a change is about an interface.
pub open spec fn touches_interface(c: NetworkPlannedChangeView) -> bool {
    (c.before is Some && c.before->Some_0 is Interface) || (c.after is Some
        && c.after->Some_0 is Interface)
}

/// Whether links and addresses have to be looked at too: where the plan or the record is about
/// interfaces, or the record cannot be read.
pub open spec fn needs_links(
    changes: Seq<NetworkPlannedChangeView>,
    record: Option<RuntimeCanonicalRecordView>,
) -> bool {
    (exists|i: int| 0 <= i < changes.len() && touches_interface(#[trigger] changes[i])) || (match record {
        None => false,
        Some(rec) => match recorded_state(rec) {
            Err(_) => true,
            Ok(s) => any_profile(s.inventory.objects),
        },
    })
}

/// The commands of an inspection.
pub open spec fn inspection(full: bool) -> Seq<FirewallCommandView> {
    if full {
        seq![
            FirewallCommandView::IpJsonLink,
            FirewallCommandView::IpJsonAddress,
            FirewallCommandView::IpJsonRoute,
            FirewallCommandView::IpJsonRule,
        ]
    } else {
        seq![FirewallCommandView::IpJsonRoute, FirewallCommandView::IpJsonRule]
    }
}

/// The snapshot that the replies to an inspection come to, against a record.
pub open spec fn reconciled_with(
    full: bool,
    replies: Seq<Result<FirewallCommandOutputView, FirewallCommandErrorView>>,
    valid: Seq<bool>,
    answers: Seq<RuleAnswerView>,
    record: Option<RuntimeCanonicalRecordView>,
    boot_id: Seq<char>,
) -> Result<RuntimeRouteSnapshotView, GenericRuntimeRouteExecutionErrorView> {
    match documents(replies, inspection(full).len()) {
        Err(e) => Err(e),
        Ok(d) => match documents_reconciled(full, d, valid, answers, record, boot_id) {
            Err(e) => Err(GenericRuntimeRouteExecutionErrorView::Inventory(e)),
            Ok(s) => Ok(s),
        },
    }
}

/// What the documents of an inspection come to.
#[verifier::opaque]
pub open spec fn documents_reconciled(
    full: bool,
    d: Seq<Seq<char>>,
    valid: Seq<bool>,
    answers: Seq<RuleAnswerView>,
    record: Option<RuntimeCanonicalRecordView>,
    boot_id: Seq<char>,
) -> Result<RuntimeRouteSnapshotView, RuntimeNetworkInventoryError> {
    if full {
        links_reconciled(d[0], d[1], d[2], d[3], valid, answers, record, boot_id)
    } else {
        runtime_reconciled(d[0], d[1], answers, record, boot_id)
    }
}

/// The transaction that a plan starts, or why it does not.
pub open spec fn created(
    runtime_root: Seq<char>,
    transaction_id: Seq<char>,
    boot_id: Seq<char>,
    record: Option<RuntimeCanonicalRecordView>,
    plan: NetworkMutationPlanView,
    plan_valid: bool,
    require_tmp: bool,
) -> Result<GenericRuntimeRouteTransactionView, GenericRuntimeRouteExecutionErrorView> {
    if !is_boot_name(transaction_id) || !is_boot_name(boot_id) || !is_plain(runtime_root) || (
    require_tmp && !is_volatile(runtime_root)) {
        Err(GenericRuntimeRouteExecutionErrorView::InvalidIdentity)
    } else if !plan_valid {
        Err(GenericRuntimeRouteExecutionErrorView::InvalidPlan)
    } else {
        Ok(
            GenericRuntimeRouteTransactionView {
                runtime_root,
                transaction_id,
                boot_id,
                record,
                plan,
                state: TransactionState::New,
                pending: Pending::Nothing,
                snapshot: None,
                rendered: None,
                drafted: None,
                staging_dir: None,
                apply_path: None,
                rollback_path: None,
                verified_canonical: None,
                require_tmp,
            },
        )
    }
}

/// What an inspection of the transaction comes to.
pub open spec fn reconciled_now(
    t: GenericRuntimeRouteTransactionView,
    replies: Seq<Result<FirewallCommandOutputView, FirewallCommandErrorView>>,
    valid: Seq<bool>,
    answers: Seq<RuleAnswerView>,
) -> Result<RuntimeRouteSnapshotView, GenericRuntimeRouteExecutionErrorView> {
    reconciled_with(
        needs_links(t.plan.changes, t.record),
        replies,
        valid,
        answers,
        t.record,
        t.boot_id,
    )
}

/// The transaction once the plan was bound to a reconciled inspection.
pub open spec fn reinspected(
    t: GenericRuntimeRouteTransactionView,
    replies: Seq<Result<FirewallCommandOutputView, FirewallCommandErrorView>>,
    valid: Seq<bool>,
    answers: Seq<RuleAnswerView>,
    projected: Option<NetworkInventoryView>,
    projected_valid: Seq<bool>,
    encoded: Option<Seq<u8>>,
) -> Result<GenericRuntimeRouteTransactionView, GenericRuntimeRouteExecutionErrorView> {
    if t.state != TransactionState::New {
        Err(GenericRuntimeRouteExecutionErrorView::InvalidState)
    } else {
        match reconciled_now(t, replies, valid, answers) {
            Err(e) => Err(e),
            Ok(s) => match route_draft(s.boot_id, t.plan.changes, projected, projected_valid) {
                Err(e) => Err(GenericRuntimeRouteExecutionErrorView::Inventory(e)),
                Ok(draft) => match sealed(draft, encoded) {
                    Err(e) => Err(GenericRuntimeRouteExecutionErrorView::Inventory(e)),
                    Ok(stage) => Ok(
                        GenericRuntimeRouteTransactionView {
                            snapshot: Some(s),
                            rendered: Some(stage),
                            drafted: Some(draft.canonical),
                            state: TransactionState::Inspected,
                            ..t
                        },
                    ),
                },
            },
        }
    }
}

pub open spec fn apply_file(t: GenericRuntimeRouteTransactionView) -> Seq<char> {
    path_join(staging_dir_of(t.runtime_root, t.transaction_id), "apply.ipbatch"@)
}

pub open spec fn rollback_file(t: GenericRuntimeRouteTransactionView) -> Seq<char> {
    path_join(staging_dir_of(t.runtime_root, t.transaction_id), "rollback.ipbatch"@)
}

/// What is to be staged: the batch that applies the plan, and the one that undoes it.
pub open spec fn staging_plan(t: GenericRuntimeRouteTransactionView) -> Result<
    RouteStagingPlanView,
    GenericRuntimeRouteExecutionErrorView,
> {
    if t.state != TransactionState::Inspected {
        Err(GenericRuntimeRouteExecutionErrorView::InvalidState)
    } else {
        match t.rendered {
            None => Err(GenericRuntimeRouteExecutionErrorView::InvalidState),
            Some(stage) => Ok(
                RouteStagingPlanView {
                    staging_root: staging_root_of(t.runtime_root),
                    staging_dir: staging_dir_of(t.runtime_root, t.transaction_id),
                    apply_path: apply_file(t),
                    apply_batch: stage.apply_batch,
                    rollback_path: rollback_file(t),
                    rollback_batch: stage.rollback_batch,
                },
            ),
        }
    }
}

/// The transaction once both batches were written.
pub open spec fn staged(t: GenericRuntimeRouteTransactionView) -> Result<
    GenericRuntimeRouteTransactionView,
    GenericRuntimeRouteExecutionErrorView,
> {
    if t.state != TransactionState::Inspected || t.pending != Pending::Stage || t.staging_dir is None {
        Err(GenericRuntimeRouteExecutionErrorView::InvalidState)
    } else {
        Ok(
            GenericRuntimeRouteTransactionView {
                apply_path: Some(apply_file(t)),
                rollback_path: Some(rollback_file(t)),
                state: TransactionState::Staged,
                pending: Pending::Nothing,
                ..t
            },
        )
    }
}

/// The transaction once both staged files were found to hold the batches.
pub open spec fn validated(
    t: GenericRuntimeRouteTransactionView,
    apply: Seq<u8>,
    rollback: Seq<u8>,
) -> Result<GenericRuntimeRouteTransactionView, GenericRuntimeRouteExecutionErrorView> {
    if t.state != TransactionState::Staged {
        Err(GenericRuntimeRouteExecutionErrorView::InvalidState)
    } else {
        match t.rendered {
            None => Err(GenericRuntimeRouteExecutionErrorView::InvalidState),
            Some(stage) => if apply != encode_utf8(stage.apply_batch) || rollback != encode_utf8(
                stage.rollback_batch,
            ) {
                Err(GenericRuntimeRouteExecutionErrorView::StagedDrift)
            } else {
                Ok(GenericRuntimeRouteTransactionView { state: TransactionState::Validated, ..t })
            },
        }
    }
}

/// The command that applies the plan, where a fresh inspection comes to the same snapshot.
pub open spec fn activation_plan(
    t: GenericRuntimeRouteTransactionView,
    replies: Seq<Result<FirewallCommandOutputView, FirewallCommandErrorView>>,
    valid: Seq<bool>,
    answers: Seq<RuleAnswerView>,
) -> Result<InvocationView, GenericRuntimeRouteExecutionErrorView> {
    if t.state != TransactionState::Validated {
        Err(GenericRuntimeRouteExecutionErrorView::InvalidState)
    } else {
        match reconciled_now(t, replies, valid, answers) {
            Err(e) => Err(e),
            Ok(fresh) => if t.snapshot != Some(fresh) {
                Err(GenericRuntimeRouteExecutionErrorView::SourceDrift)
            } else {
                match t.apply_path {
                    None => Err(GenericRuntimeRouteExecutionErrorView::InvalidState),
                    Some(batch_file) => Ok(
                        bare_run(
                            FirewallCommandView::IpBatch { batch_file, continue_on_error: false },
                        ),
                    ),
                }
            },
        }
    }
}

/// The transaction once the batch was applied.
pub open spec fn activated(
    t: GenericRuntimeRouteTransactionView,
    reply: Result<FirewallCommandOutputView, FirewallCommandErrorView>,
) -> Result<GenericRuntimeRouteTransactionView, GenericRuntimeRouteExecutionErrorView> {
    if t.state != TransactionState::Validated || t.pending != Pending::Activation {
        Err(GenericRuntimeRouteExecutionErrorView::InvalidState)
    } else {
        match reply {
            Err(e) => Err(GenericRuntimeRouteExecutionErrorView::Command(e)),
            Ok(_) => Ok(
                GenericRuntimeRouteTransactionView {
                    state: TransactionState::Activated,
                    pending: Pending::Nothing,
                    ..t
                },
            ),
        }
    }
}

/// The transaction once a fresh inspection was reconciled with the record that its own plan leads to, given
/// the verdicts of the object model on the objects of that record.
pub open spec fn verified(
    t: GenericRuntimeRouteTransactionView,
    replies: Seq<Result<FirewallCommandOutputView, FirewallCommandErrorView>>,
    valid: Seq<bool>,
    answers: Seq<RuleAnswerView>,
    drafted_valid: Seq<bool>,
) -> Result<GenericRuntimeRouteTransactionView, GenericRuntimeRouteExecutionErrorView> {
    if t.state != TransactionState::Activated {
        Err(GenericRuntimeRouteExecutionErrorView::InvalidState)
    } else {
        match (t.rendered, t.drafted) {
            (Some(stage), Some(state)) => match reconciled_with(
                needs_links(t.plan.changes, t.record),
                replies,
                valid,
                answers,
                Some(
                    RuntimeCanonicalRecordView {
                        encoded_bytes: stage.projected_canonical_state.len() as usize,
                        state: Some(state),
                        valid: drafted_valid,
                    },
                ),
                t.boot_id,
            ) {
                Err(e) => Err(e),
                Ok(_) => Ok(
                    GenericRuntimeRouteTransactionView {
                        verified_canonical: Some(stage.projected_canonical_state),
                        state: TransactionState::Verified,
                        ..t
                    },
                ),
            },
            _ => Err(GenericRuntimeRouteExecutionErrorView::InvalidState),
        }
    }
}

fn read_documents(
    replies: &Vec<Result<FirewallCommandOutput, FirewallCommandError>>,
    count: usize,
) -> (r: Result<Vec<String>, GenericRuntimeRouteExecutionError>)
    ensures
        lvres(r) == documents(reply_views(replies@), count as nat),
{
    let ghost all = reply_views(replies@);
    let mut texts: Vec<String> = Vec::new();
    let mut i: usize = 0;
    while i < replies.len()
        invariant
            i <= replies@.len(),
            all == reply_views(replies@),
            documents_from(views(texts@), all, i as int) == documents_from(Seq::empty(), all, 0),
        decreases replies@.len() - i,
    {
        assert(all[i as int] == vres(replies@[i as int]));
        match &replies[i] {
            Err(e) => {
                return Err(GenericRuntimeRouteExecutionError::Command(copy_error(e)));
            },
            Ok(o) => {
                proof {
                    lemma_bytes(o.stdout@);
                }
                match utf8_text(copy_bytes(o.stdout.as_slice())) {
                    None => {
                        return Err(GenericRuntimeRouteExecutionError::Inspection);
                    },
                    Some(s) => {
                        texts.push(s);
                    },
                }
            },
        }
        i = i + 1;
    }
    if texts.len() == count {
        Ok(texts)
    } else {
        Err(GenericRuntimeRouteExecutionError::Inspection)
    }
}

fn about_interface(c: &NetworkPlannedChange) -> (r: bool)
    ensures
        r == touches_interface(c@),
{
    let before = match &c.before {
        Some(NetworkObject::Interface(_)) => true,
        _ => false,
    };
    let after = match &c.after {
        Some(NetworkObject::Interface(_)) => true,
        _ => false,
    };
    before || after
}

fn reconcile_documents(
    full: bool,
    texts: &Vec<String>,
    valid: &[bool],
    answers: &[RuleAnswer],
    record: Option<&RuntimeCanonicalRecord>,
    boot_id: &str,
) -> (r: Result<RuntimeRouteSnapshot, RuntimeNetworkInventoryError>)
    requires
        texts@.len() == (if full {
            4int
        } else {
            2
        }),
    ensures
        vres(r) == documents_reconciled(
            full,
            views(texts@),
            valid@,
            views(answers@),
            record_view(record),
            boot_id@,
        ),
{
    reveal(documents_reconciled);
    assert(views(texts@)[0] == texts@[0]@);
    assert(views(texts@)[1] == texts@[1]@);
    if full {
        assert(views(texts@)[2] == texts@[2]@);
        assert(views(texts@)[3] == texts@[3]@);
        reconcile_runtime_network_inventory_with_links(
            texts[0].as_str(),
            texts[1].as_str(),
            texts[2].as_str(),
            texts[3].as_str(),
            valid,
            answers,
            record,
            boot_id,
        )
    } else {
        reconcile_runtime_network_inventory(
            texts[0].as_str(),
            texts[1].as_str(),
            answers,
            record,
            boot_id,
        )
    }
}

fn reconcile_with(
    full: bool,
    replies: &Vec<Result<FirewallCommandOutput, FirewallCommandError>>,
    valid: &[bool],
    answers: &[RuleAnswer],
    record: Option<&RuntimeCanonicalRecord>,
    boot_id: &str,
) -> (r: Result<RuntimeRouteSnapshot, GenericRuntimeRouteExecutionError>)
    ensures
        vres(r) == reconciled_with(
            full,
            reply_views(replies@),
            valid@,
            views(answers@),
            record_view(record),
            boot_id@,
        ),
{
    let count: usize = if full {
        4
    } else {
        2
    };
    let texts = match read_documents(replies, count) {
        Ok(t) => t,
        Err(e) => {
            return Err(e);
        },
    };
    match reconcile_documents(full, &texts, valid, answers, record, boot_id) {
        Ok(s) => Ok(s),
        Err(e) => Err(GenericRuntimeRouteExecutionError::Inventory(e)),
    }
}

impl GenericRuntimeRouteTransaction {
    /// Creates a transaction below the volatile directory.
    pub fn system(
        runtime_root: String,
        transaction_id: &str,
        boot_id: &str,
        record: Option<RuntimeCanonicalRecord>,
        plan: NetworkMutationPlan,
        plan_valid: bool,
    ) -> (r: Result<GenericRuntimeRouteTransaction, GenericRuntimeRouteExecutionError>)
        ensures
            vres(r) == created(
                runtime_root@,
                transaction_id@,
                boot_id@,
                opt(record),
                plan@,
                plan_valid,
                true,
            ),
    {
        GenericRuntimeRouteTransaction::new(
            runtime_root,
            transaction_id,
            boot_id,
            record,
            plan,
            plan_valid,
            true,
        )
    }

    /// Creates a transaction. The plan comes with the verdict of the planner on it.
    pub fn new(
        runtime_root: String,
        transaction_id: &str,
        boot_id: &str,
        record: Option<RuntimeCanonicalRecord>,
        plan: NetworkMutationPlan,
        plan_valid: bool,
        require_tmp: bool,
    ) -> (r: Result<GenericRuntimeRouteTransaction, GenericRuntimeRouteExecutionError>)
        ensures
            vres(r) == created(
                runtime_root@,
                transaction_id@,
                boot_id@,
                opt(record),
                plan@,
                plan_valid,
                require_tmp,
            ),
    {
        if !boot_name(transaction_id) || !boot_name(boot_id) || !plain_path(runtime_root.as_str())
            || (require_tmp && !volatile_path(runtime_root.as_str())) {
            return Err(GenericRuntimeRouteExecutionError::InvalidIdentity);
        }
        if !plan_valid {
            return Err(GenericRuntimeRouteExecutionError::InvalidPlan);
        }
        Ok(
            GenericRuntimeRouteTransaction {
                runtime_root,
                transaction_id: transaction_id.to_owned(),
                boot_id: boot_id.to_owned(),
                record,
                plan,
                state: TransactionState::New,
                pending: Pending::Nothing,
                snapshot: None,
                rendered: None,
                drafted: None,
                staging_dir: None,
                apply_path: None,
                rollback_path: None,
                verified_canonical: None,
                require_tmp,
            },
        )
    }

    /// Whether links and addresses have to be looked at too.
    pub fn execution_requires_full_inventory(&self) -> (r: bool)
        ensures
            r == needs_links(self@.plan.changes, self@.record),
    {
        let ghost all = self@.plan.changes;
        let mut i: usize = 0;
        while i < self.plan.changes.len()
            invariant
                i <= self.plan.changes@.len(),
                all == views(self.plan.changes@),
                all == self@.plan.changes,
                forall|j: int| 0 <= j < i ==> !touches_interface(#[trigger] all[j]),
            decreases self.plan.changes@.len() - i,
        {
            assert(all[i as int] == self.plan.changes@[i as int]@);
            if about_interface(&self.plan.changes[i]) {
                return true;
            }
            i = i + 1;
        }
        match &self.record {
            None => false,
            Some(rec) => match runtime_canonical_includes_interfaces(rec) {
                Ok(b) => b,
                Err(_) => true,
            },
        }
    }

    /// The commands of an inspection, in their order.
    pub fn inspection_commands(&self) -> (r: Vec<Invocation>)
        ensures
            r@.len() == inspection(needs_links(self@.plan.changes, self@.record)).len(),
            forall|i: int|
                0 <= i < r@.len() ==> (#[trigger] r@[i])@ == bare_run(
                    inspection(needs_links(self@.plan.changes, self@.record))[i],
                ),
    {
        let mut list: Vec<Invocation> = Vec::new();
        if self.execution_requires_full_inventory() {
            list.push(run_bare(FirewallCommand::IpJsonLink));
            list.push(run_bare(FirewallCommand::IpJsonAddress));
        }
        list.push(run_bare(FirewallCommand::IpJsonRoute));
        list.push(run_bare(FirewallCommand::IpJsonRule));
        list
    }

    /// Reconciles an inspection with the record of the transaction.
    pub fn reconcile_snapshot(
        &self,
        replies: &Vec<Result<FirewallCommandOutput, FirewallCommandError>>,
        valid: &[bool],
        answers: &[RuleAnswer],
    ) -> (r: Result<RuntimeRouteSnapshot, GenericRuntimeRouteExecutionError>)
        ensures
            vres(r) == reconciled_now(
                self@,
                reply_views(replies@),
                valid@,
                views(answers@),
            ),
    {
        let full = self.execution_requires_full_inventory();
        let record = match &self.record {
            Some(rec) => Some(rec),
            None => None,
        };
        reconcile_with(full, replies, valid, answers, record, self.boot_id.as_str())
    }

    /// Binds the plan to an inspection.
    ///
    /// The replies are those to the commands of the inspection, with the verdicts and answers of the object
    /// model. The projection is the inventory that the planner foresees, unless it refuses the plan,
    /// and the encoding is that of the record that the plan leads to.
    pub fn reinspect(
        &mut self,
        replies: &Vec<Result<FirewallCommandOutput, FirewallCommandError>>,
        valid: &[bool],
        answers: &[RuleAnswer],
        projected: Option<&NetworkInventory>,
        projected_valid: &[bool],
        encoded: Option<Vec<u8>>,
    ) -> (r: Result<(), GenericRuntimeRouteExecutionError>)
        ensures
            match r {
                Ok(()) => reinspected(
                    old(self)@,
                    reply_views(replies@),
                    valid@,
                    views(answers@),
                    inventory_view(projected),
                    projected_valid@,
                    opt(encoded),
                ) == Ok::<GenericRuntimeRouteTransactionView, GenericRuntimeRouteExecutionErrorView>(
                    final(self)@,
                ),
                Err(e) => reinspected(
                    old(self)@,
                    reply_views(replies@),
                    valid@,
                    views(answers@),
                    inventory_view(projected),
                    projected_valid@,
                    opt(encoded),
                ) == Err::<GenericRuntimeRouteTransactionView, GenericRuntimeRouteExecutionErrorView>(
                    e@,
                ) && final(self)@ == old(self)@,
            },
    {
        if self.state != TransactionState::New {
            return Err(GenericRuntimeRouteExecutionError::InvalidState);
        }
        let snapshot = match self.reconcile_snapshot(replies, valid, answers) {
            Ok(s) => s,
            Err(e) => {
                return Err(e);
            },
        };
        let draft = match render_runtime_route_stage(
            &snapshot,
            &self.plan,
            projected,
            projected_valid,
        ) {
            Ok(d) => d,
            Err(e) => {
                return Err(GenericRuntimeRouteExecutionError::Inventory(e));
            },
        };
        let drafted = draft.canonical.twin();
        let stage = match seal_runtime_route_stage(draft, encoded) {
            Ok(s) => s,
            Err(e) => {
                return Err(GenericRuntimeRouteExecutionError::Inventory(e));
            },
        };
        self.snapshot = Some(snapshot);
        self.rendered = Some(stage);
        self.drafted = Some(drafted);
        self.state = TransactionState::Inspected;
        Ok(())
    }

    /// Begins to stage: names the private directory to create and the two batches to write there.
    pub fn begin_stage(&mut self) -> (r: Result<RouteStagingPlan, GenericRuntimeRouteExecutionError>)
        ensures
            match r {
                Ok(p) => staging_plan(old(self)@) == Ok::<
                    RouteStagingPlanView,
                    GenericRuntimeRouteExecutionErrorView,
                >(p@) && final(self)@ == (GenericRuntimeRouteTransactionView {
                    pending: Pending::Stage,
                    ..old(self)@
                }),
                Err(e) => staging_plan(old(self)@) == Err::<
                    RouteStagingPlanView,
                    GenericRuntimeRouteExecutionErrorView,
                >(e@) && final(self)@ == old(self)@,
            },
    {
        if self.state != TransactionState::Inspected {
            return Err(GenericRuntimeRouteExecutionError::InvalidState);
        }
        let plan = match &self.rendered {
            None => {
                return Err(GenericRuntimeRouteExecutionError::InvalidState);
            },
            Some(stage) => {
                let dir = staging_directory(
                    self.runtime_root.as_str(),
                    self.transaction_id.as_str(),
                );
                RouteStagingPlan {
                    staging_root: staging_root(self.runtime_root.as_str()),
                    apply_path: join_path(dir.as_str(), "apply.ipbatch"),
                    apply_batch: stage.apply_batch.clone(),
                    rollback_path: join_path(dir.as_str(), "rollback.ipbatch"),
                    rollback_batch: stage.rollback_batch.clone(),
                    staging_dir: dir,
                }
            },
        };
        self.pending = Pending::Stage;
        Ok(plan)
    }

    /// Notes that the directory of the stage was created.
    pub fn stage_created(&mut self) -> (r: Result<(), GenericRuntimeRouteExecutionError>)
        ensures
            match r {
                Ok(()) => old(self)@.pending == Pending::Stage && final(self)@ == (
                GenericRuntimeRouteTransactionView {
                    staging_dir: Some(
                        staging_dir_of(old(self)@.runtime_root, old(self)@.transaction_id),
                    ),
                    ..old(self)@
                }),
                Err(e) => old(self)@.pending != Pending::Stage && e@
                    == GenericRuntimeRouteExecutionErrorView::InvalidState && final(self)@ == old(
                    self,
                )@,
            },
    {
        if self.pending != Pending::Stage {
            return Err(GenericRuntimeRouteExecutionError::InvalidState);
        }
        self.staging_dir = Some(
            staging_directory(self.runtime_root.as_str(), self.transaction_id.as_str()),
        );
        Ok(())
    }

    /// Notes that both batches were written.
    pub fn finish_stage(&mut self) -> (r: Result<(), GenericRuntimeRouteExecutionError>)
        ensures
            match r {
                Ok(()) => staged(old(self)@) == Ok::<
                    GenericRuntimeRouteTransactionView,
                    GenericRuntimeRouteExecutionErrorView,
                >(final(self)@),
                Err(e) => staged(old(self)@) == Err::<
                    GenericRuntimeRouteTransactionView,
                    GenericRuntimeRouteExecutionErrorView,
                >(e@) && final(self)@ == (GenericRuntimeRouteTransactionView {
                    pending: Pending::Nothing,
                    ..old(self)@
                }),
            },
    {
        let waited = self.pending == Pending::Stage;
        self.pending = Pending::Nothing;
        if self.state != TransactionState::Inspected || !waited || self.staging_dir.is_none() {
            return Err(GenericRuntimeRouteExecutionError::InvalidState);
        }
        let dir = staging_directory(self.runtime_root.as_str(), self.transaction_id.as_str());
        self.apply_path = Some(join_path(dir.as_str(), "apply.ipbatch"));
        self.rollback_path = Some(join_path(dir.as_str(), "rollback.ipbatch"));
        self.state = TransactionState::Staged;
        Ok(())
    }

    /// Checks that the staged files hold the batches that were rendered.
    pub fn validate_stage(&mut self, apply: &[u8], rollback: &[u8]) -> (r: Result<
        (),
        GenericRuntimeRouteExecutionError,
    >)
        ensures
            match r {
                Ok(()) => validated(old(self)@, apply@, rollback@) == Ok::<
                    GenericRuntimeRouteTransactionView,
                    GenericRuntimeRouteExecutionErrorView,
                >(final(self)@),
                Err(e) => validated(old(self)@, apply@, rollback@) == Err::<
                    GenericRuntimeRouteTransactionView,
                    GenericRuntimeRouteExecutionErrorView,
                >(e@) && final(self)@ == old(self)@,
            },
    {
        if self.state != TransactionState::Staged {
            return Err(GenericRuntimeRouteExecutionError::InvalidState);
        }
        match &self.rendered {
            None => {
                return Err(GenericRuntimeRouteExecutionError::InvalidState);
            },
            Some(stage) => {
                if !same_bytes(apply, stage.apply_batch.as_str().as_bytes()) || !same_bytes(
                    rollback,
                    stage.rollback_batch.as_str().as_bytes(),
                ) {
                    return Err(GenericRuntimeRouteExecutionError::StagedDrift);
                }
            },
        }
        self.state = TransactionState::Validated;
        Ok(())
    }

    /// Begins to activate, once an independent rollback is armed: a fresh inspection has to come to the
    /// same snapshot. Names the command that applies the plan.
    pub fn begin_activation(
        &mut self,
        replies: &Vec<Result<FirewallCommandOutput, FirewallCommandError>>,
        valid: &[bool],
        answers: &[RuleAnswer],
    ) -> (r: Result<Invocation, GenericRuntimeRouteExecutionError>)
        ensures
            match r {
                Ok(v) => activation_plan(
                    old(self)@,
                    reply_views(replies@),
                    valid@,
                    views(answers@),
                ) == Ok::<InvocationView, GenericRuntimeRouteExecutionErrorView>(v@) && final(self)@
                    == (GenericRuntimeRouteTransactionView {
                    pending: Pending::Activation,
                    ..old(self)@
                }),
                Err(e) => activation_plan(
                    old(self)@,
                    reply_views(replies@),
                    valid@,
                    views(answers@),
                ) == Err::<InvocationView, GenericRuntimeRouteExecutionErrorView>(e@) && final(self)@
                    == old(self)@,
            },
    {
        if self.state != TransactionState::Validated {
            return Err(GenericRuntimeRouteExecutionError::InvalidState);
        }
        let fresh = match self.reconcile_snapshot(replies, valid, answers) {
            Ok(s) => s,
            Err(e) => {
                return Err(e);
            },
        };
        let unchanged = match &self.snapshot {
            Some(s) => s.alike(&fresh),
            None => false,
        };
        if !unchanged {
            return Err(GenericRuntimeRouteExecutionError::SourceDrift);
        }
        let command = match &self.apply_path {
            None => {
                return Err(GenericRuntimeRouteExecutionError::InvalidState);
            },
            Some(path) => run_bare(
                FirewallCommand::IpBatch { batch_file: path.clone(), continue_on_error: false },
            ),
        };
        self.pending = Pending::Activation;
        Ok(command)
    }

    /// Checks what the command that applies the plan replied.
    pub fn finish_activation(
        &mut self,
        reply: Result<FirewallCommandOutput, FirewallCommandError>,
    ) -> (r: Result<(), GenericRuntimeRouteExecutionError>)
        ensures
            match r {
                Ok(()) => activated(old(self)@, vres(reply)) == Ok::<
                    GenericRuntimeRouteTransactionView,
                    GenericRuntimeRouteExecutionErrorView,
                >(final(self)@),
                Err(e) => activated(old(self)@, vres(reply)) == Err::<
                    GenericRuntimeRouteTransactionView,
                    GenericRuntimeRouteExecutionErrorView,
                >(e@) && final(self)@ == (GenericRuntimeRouteTransactionView {
                    pending: Pending::Nothing,
                    ..old(self)@
                }),
            },
    {
        let waited = self.pending == Pending::Activation;
        self.pending = Pending::Nothing;
        if self.state != TransactionState::Validated || !waited {
            return Err(GenericRuntimeRouteExecutionError::InvalidState);
        }
        match reply {
            Err(e) => Err(GenericRuntimeRouteExecutionError::Command(e)),
            Ok(_) => {
                self.state = TransactionState::Activated;
                Ok(())
            },
        }
    }

    /// Applies the staged batch where a fresh inspection gives what was inspected, and takes what the command
    /// replied. An independent rollback has to be armed before.
    pub fn activate_after_rollback_armed<E: FirewallCommandExecutor>(
        &mut self,
        executor: &E,
        replies: &Vec<Result<FirewallCommandOutput, FirewallCommandError>>,
        valid: &[bool],
        answers: &[RuleAnswer],
    ) -> (r: Result<(), GenericRuntimeRouteExecutionError>)
        ensures
            match activation_plan(
                old(self)@,
                reply_views(replies@),
                valid@,
                views(answers@),
            ) {
                Err(e) => r is Err && r->Err_0@ == e && final(self)@ == old(self)@,
                Ok(apply) => {
                    let begun = GenericRuntimeRouteTransactionView {
                        pending: Pending::Activation,
                        ..old(self)@
                    };
                    exists|reply: Result<FirewallCommandOutputView, FirewallCommandErrorView>|
                        #[trigger] may_reply(executor, apply, reply) && match r {
                            Ok(()) => activated(begun, reply) == Ok::<
                                GenericRuntimeRouteTransactionView,
                                GenericRuntimeRouteExecutionErrorView,
                            >(final(self)@),
                            Err(e) => activated(begun, reply) == Err::<
                                GenericRuntimeRouteTransactionView,
                                GenericRuntimeRouteExecutionErrorView,
                            >(e@) && final(self)@ == (GenericRuntimeRouteTransactionView {
                                pending: Pending::Nothing,
                                ..begun
                            }),
                        }
                },
            },
    {
        let apply = match self.begin_activation(replies, valid, answers) {
            Ok(apply) => apply,
            Err(e) => {
                return Err(e);
            },
        };
        let reply = run_one(executor, &apply);
        let ghost seen = vres(reply);
        let r = self.finish_activation(reply);
        assert(may_reply(executor, apply@, seen));
        r
    }

    /// Reconciles a fresh inspection with the record that the plan leads to. The last verdicts are those
    /// of the object model on the objects of that record.
    pub fn verify(
        &mut self,
        replies: &Vec<Result<FirewallCommandOutput, FirewallCommandError>>,
        valid: &[bool],
        answers: &[RuleAnswer],
        drafted_valid: Vec<bool>,
    ) -> (r: Result<(), GenericRuntimeRouteExecutionError>)
        ensures
            match r {
                Ok(()) => verified(
                    old(self)@,
                    reply_views(replies@),
                    valid@,
                    views(answers@),
                    drafted_valid@,
                ) == Ok::<GenericRuntimeRouteTransactionView, GenericRuntimeRouteExecutionErrorView>(
                    final(self)@,
                ),
                Err(e) => verified(
                    old(self)@,
                    reply_views(replies@),
                    valid@,
                    views(answers@),
                    drafted_valid@,
                ) == Err::<GenericRuntimeRouteTransactionView, GenericRuntimeRouteExecutionErrorView>(
                    e@,
                ) && final(self)@ == old(self)@,
            },
    {
        if self.state != TransactionState::Activated {
            return Err(GenericRuntimeRouteExecutionError::InvalidState);
        }
        let full = self.execution_requires_full_inventory();
        let (encoded, applied) = match (&self.rendered, &self.drafted) {
            (Some(stage), Some(state)) => {
                proof {
                    lemma_bytes(stage.projected_canonical_state@);
                    lemma_verdicts(drafted_valid@);
                }
                let applied = RuntimeCanonicalRecord {
                    encoded_bytes: stage.projected_canonical_state.len(),
                    state: Some(state.twin()),
                    valid: drafted_valid,
                };
                (copy_bytes(stage.projected_canonical_state.as_slice()), applied)
            },
            _ => {
                return Err(GenericRuntimeRouteExecutionError::InvalidState);
            },
        };
        match reconcile_with(full, replies, valid, answers, Some(&applied), self.boot_id.as_str()) {
            Ok(_) => {},
            Err(e) => {
                return Err(e);
            },
        }
        self.verified_canonical = Some(encoded);
        self.state = TransactionState::Verified;
        Ok(())
    }

    /// The path of the staged batch that undoes the plan, as long as a rollback can be prepared.
    pub fn rollback_batch(&self) -> (r: Result<&str, GenericRuntimeRouteExecutionError>)
        ensures
            match r {
                Ok(p) => (self@.state == TransactionState::Staged || self@.state
                    == TransactionState::Validated) && self@.rollback_path == Some(p@),
                Err(e) => e@ == GenericRuntimeRouteExecutionErrorView::InvalidState && ((self@.state
                    != TransactionState::Staged && self@.state != TransactionState::Validated)
                    || self@.rollback_path is None),
            },
    {
        if self.state != TransactionState::Staged && self.state != TransactionState::Validated {
            return Err(GenericRuntimeRouteExecutionError::InvalidState);
        }
        match &self.rollback_path {
            Some(p) => Ok(p.as_str()),
            None => Err(GenericRuntimeRouteExecutionError::InvalidState),
        }
    }

    /// The encoding to record, once the plan was verified.
    pub fn verified_canonical_state(&self) -> (r: Result<
        &Vec<u8>,
        GenericRuntimeRouteExecutionError,
    >)
        ensures
            match r {
                Ok(b) => self@.state == TransactionState::Verified && self@.verified_canonical
                    == Some(b@),
                Err(e) => e@ == GenericRuntimeRouteExecutionErrorView::InvalidState && (self@.state
                    != TransactionState::Verified || self@.verified_canonical is None),
            },
    {
        if self.state != TransactionState::Verified {
            return Err(GenericRuntimeRouteExecutionError::InvalidState);
        }
        match &self.verified_canonical {
            Some(b) => Ok(b),
            None => Err(GenericRuntimeRouteExecutionError::InvalidState),
        }
    }

    /// Gives up the stage: the directory that is to be removed, where one was created.
    pub fn discard_stage(&mut self) -> (r: Option<String>)
        ensures
            opt(r) == old(self)@.staging_dir,
            final(self)@ == (GenericRuntimeRouteTransactionView { staging_dir: None, ..old(self)@ }),
    {
        let r = copy_opt(&self.staging_dir);
        self.staging_dir = None;
        r
    }
}

/// A plan is applied only where a fresh inspection comes to the snapshot that the plan was bound to, and
/// only from a file that was found to hold the rendered batch.
pub proof fn law_apply_requires_unchanged_state(
    t: GenericRuntimeRouteTransactionView,
    replies: Seq<Result<FirewallCommandOutputView, FirewallCommandErrorView>>,
    valid: Seq<bool>,
    answers: Seq<RuleAnswerView>,
    apply: Seq<u8>,
    rollback: Seq<u8>,
)
    ensures
        activation_plan(t, replies, valid, answers) is Ok ==> t.state == TransactionState::Validated
            && t.snapshot == Some(reconciled_now(t, replies, valid, answers)->Ok_0),
        validated(t, apply, rollback) matches Ok(n) ==> n.rendered is Some && apply == encode_utf8(
            n.rendered->Some_0.apply_batch,
        ) && rollback == encode_utf8(n.rendered->Some_0.rollback_batch),
{
}

} // verus!
