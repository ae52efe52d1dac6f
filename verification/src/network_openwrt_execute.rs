//! The transaction on the network package.

use vstd::prelude::*;

use vstd::string::*;
use vstd::utf8::*;

use crate::firewall_command::{
    FirewallCommand, FirewallCommandError, FirewallCommandErrorView, FirewallCommandExecutor, FirewallCommandOutput,
    FirewallCommandOutputView, FirewallCommandView,
};
use crate::inventory_match::{inventory_equal, same_inventory};
use crate::items::{copy_opt, same_opt};
use crate::network_runtime::lemma_bytes;
use crate::path::{join_path, path_join};
use crate::text::{utf8_text, utf8_value};
use crate::transaction::{
    bare_run, check_config, config_fault, copy_bytes, failure, first_failure, hex_digest, hex_digest_of,
    is_system_root, is_transaction_id, lemma_config_digest, lemma_no_failure, may_replies, reply_views, run_all,
    run_bare, run_with, safe_system_runtime_root, same_bytes, staging_dir_of, staging_directory, staging_root,
    staging_root_of, temporary_name, temporary_name_of, transaction_name, ConfigFault, ConfigRead, ConfigReadView,
    InstallPlan, InstallPlanView, Invocation, InvocationView, Pending, StagingPlan, StagingPlanView,
    TransactionState,
};
use crate::views::{group_views, opt, views, vres};
use crate::network_model::{
    NetworkInventory, NetworkInventoryView, NetworkMutationPlan, NetworkMutationPlanView, NetworkObject,
};
use crate::network_openwrt::{
    inspect_openwrt_network_inventory, network_snapshot, NetworkRenderError, NetworkRenderErrorView,
    OpenWrtNetworkInventorySnapshot, OpenWrtNetworkInventorySnapshotView,
};
use crate::network_stage::{
    network_stage, render_openwrt_network_stage_from_snapshot, OpenWrtNetworkStage, OpenWrtNetworkStageView,
    OpenWrtNetworkValidation,
};

verus! {

broadcast use group_views;

/// Why a transaction was refused or failed.
#[derive(Debug, Clone, PartialEq, Eq)]
pub enum OpenWrtNetworkExecutionError {
    InvalidTransaction,
    InvalidPlan,
    InvalidState,
    UnsafeRuntime,
    UnsafeConfig,
    MalformedInspection,
    StalePlan,
    StagedStateMismatch,
    SourceDrift,
    VerificationFailed,
    Command(FirewallCommandError),
    Render(NetworkRenderError),
    Io(String),
}

#[verifier::ext_equal]
pub enum OpenWrtNetworkExecutionErrorView {
    InvalidTransaction,
    InvalidPlan,
    InvalidState,
    UnsafeRuntime,
    UnsafeConfig,
    MalformedInspection,
    StalePlan,
    StagedStateMismatch,
    SourceDrift,
    VerificationFailed,
    Command(FirewallCommandErrorView),
    Render(NetworkRenderErrorView),
    Io(Seq<char>),
}

impl View for OpenWrtNetworkExecutionError {
    type V = OpenWrtNetworkExecutionErrorView;

    open spec fn view(&self) -> OpenWrtNetworkExecutionErrorView {
        match self {
            OpenWrtNetworkExecutionError::InvalidTransaction =>
                OpenWrtNetworkExecutionErrorView::InvalidTransaction,
            OpenWrtNetworkExecutionError::InvalidPlan => OpenWrtNetworkExecutionErrorView::InvalidPlan,
            OpenWrtNetworkExecutionError::InvalidState =>
                OpenWrtNetworkExecutionErrorView::InvalidState,
            OpenWrtNetworkExecutionError::UnsafeRuntime =>
                OpenWrtNetworkExecutionErrorView::UnsafeRuntime,
            OpenWrtNetworkExecutionError::UnsafeConfig =>
                OpenWrtNetworkExecutionErrorView::UnsafeConfig,
            OpenWrtNetworkExecutionError::MalformedInspection =>
                OpenWrtNetworkExecutionErrorView::MalformedInspection,
            OpenWrtNetworkExecutionError::StalePlan => OpenWrtNetworkExecutionErrorView::StalePlan,
            OpenWrtNetworkExecutionError::StagedStateMismatch => OpenWrtNetworkExecutionErrorView::StagedStateMismatch,
            OpenWrtNetworkExecutionError::SourceDrift => OpenWrtNetworkExecutionErrorView::SourceDrift,
            OpenWrtNetworkExecutionError::VerificationFailed =>
                OpenWrtNetworkExecutionErrorView::VerificationFailed,
            OpenWrtNetworkExecutionError::Command(x) => OpenWrtNetworkExecutionErrorView::Command(x@),
            OpenWrtNetworkExecutionError::Render(x) => OpenWrtNetworkExecutionErrorView::Render(x@),
            OpenWrtNetworkExecutionError::Io(x) => OpenWrtNetworkExecutionErrorView::Io(x@),
        }
    }
}

impl OpenWrtNetworkExecutionErrorView {
    /// The text of the error.
    pub open spec fn message_text(self) -> Seq<char> {
        match self {
            OpenWrtNetworkExecutionErrorView::InvalidTransaction =>
                "invalid OpenWrt network transaction"@,
            OpenWrtNetworkExecutionErrorView::InvalidPlan => "invalid executable network plan"@,
            OpenWrtNetworkExecutionErrorView::InvalidState =>
                "OpenWrt network transaction operation is out of order"@,
            OpenWrtNetworkExecutionErrorView::UnsafeRuntime =>
                "OpenWrt network runtime directory is unsafe"@,
            OpenWrtNetworkExecutionErrorView::UnsafeConfig =>
                "OpenWrt network configuration file is unsafe"@,
            OpenWrtNetworkExecutionErrorView::MalformedInspection =>
                "OpenWrt network inspection is malformed"@,
            OpenWrtNetworkExecutionErrorView::StalePlan => "typed network plan is stale"@,
            OpenWrtNetworkExecutionErrorView::StagedStateMismatch => "staged OpenWrt network differs from approved typed state"@,
            OpenWrtNetworkExecutionErrorView::SourceDrift =>
                "live OpenWrt network changed before activation"@,
            OpenWrtNetworkExecutionErrorView::VerificationFailed =>
                "applied OpenWrt network verification failed"@,
            OpenWrtNetworkExecutionErrorView::Command(x) =>
                "OpenWrt network command failed: "@ + x.message_text(),
            OpenWrtNetworkExecutionErrorView::Render(x) =>
                "OpenWrt network rendering failed: "@ + x.message_text(),
            OpenWrtNetworkExecutionErrorView::Io(x) => "OpenWrt network I/O failed: "@ + x,
        }
    }
}

impl OpenWrtNetworkExecutionError {
    /// The text of the error.
    pub fn message(&self) -> (r: String)
        ensures
            r@ == self@.message_text(),
    {
        match self {
            OpenWrtNetworkExecutionError::InvalidTransaction =>
                "invalid OpenWrt network transaction".to_owned(),
            OpenWrtNetworkExecutionError::InvalidPlan => "invalid executable network plan".to_owned(),
            OpenWrtNetworkExecutionError::InvalidState =>
                "OpenWrt network transaction operation is out of order".to_owned(),
            OpenWrtNetworkExecutionError::UnsafeRuntime =>
                "OpenWrt network runtime directory is unsafe".to_owned(),
            OpenWrtNetworkExecutionError::UnsafeConfig =>
                "OpenWrt network configuration file is unsafe".to_owned(),
            OpenWrtNetworkExecutionError::MalformedInspection =>
                "OpenWrt network inspection is malformed".to_owned(),
            OpenWrtNetworkExecutionError::StalePlan => "typed network plan is stale".to_owned(),
            OpenWrtNetworkExecutionError::StagedStateMismatch => "staged OpenWrt network differs from approved typed state".to_owned(),
            OpenWrtNetworkExecutionError::SourceDrift =>
                "live OpenWrt network changed before activation".to_owned(),
            OpenWrtNetworkExecutionError::VerificationFailed =>
                "applied OpenWrt network verification failed".to_owned(),
            OpenWrtNetworkExecutionError::Command(x) => {
                let mut r = "OpenWrt network command failed: ".to_owned();
                r.append(x.message().as_str());
                r
            },
            OpenWrtNetworkExecutionError::Render(x) => {
                let mut r = "OpenWrt network rendering failed: ".to_owned();
                r.append(x.message().as_str());
                r
            },
            OpenWrtNetworkExecutionError::Io(x) => {
                let mut r = "OpenWrt network I/O failed: ".to_owned();
                r.append(x.as_str());
                r
            },
        }
    }
}

/// One bounded transaction on the network package.
#[derive(Debug, PartialEq, Eq)]
pub struct OpenWrtNetworkTransaction {
    runtime_root: String,
    config_path: String,
    transaction_id: String,
    plan: NetworkMutationPlan,
    require_root_owner: bool,
    state: TransactionState,
    pending: Pending,
    source_digest: Option<String>,
    source_uci: Option<Vec<u8>>,
    source_bytes: Option<Vec<u8>>,
    snapshot: Option<OpenWrtNetworkInventorySnapshot>,
    expected: Option<NetworkInventory>,
    stage: Option<OpenWrtNetworkStage>,
    staging_dir: Option<String>,
}

#[verifier::ext_equal]
pub struct OpenWrtNetworkTransactionView {
    pub runtime_root: Seq<char>,
    pub config_path: Seq<char>,
    pub transaction_id: Seq<char>,
    pub plan: NetworkMutationPlanView,
    pub require_root_owner: bool,
    pub state: TransactionState,
    pub pending: Pending,
    pub source_digest: Option<Seq<char>>,
    pub source_uci: Option<Seq<u8>>,
    pub source_bytes: Option<Seq<u8>>,
    pub snapshot: Option<OpenWrtNetworkInventorySnapshotView>,
    pub expected: Option<NetworkInventoryView>,
    pub stage: Option<OpenWrtNetworkStageView>,
    pub staging_dir: Option<Seq<char>>,
}

impl View for OpenWrtNetworkTransaction {
    type V = OpenWrtNetworkTransactionView;

    closed spec fn view(&self) -> OpenWrtNetworkTransactionView {
        OpenWrtNetworkTransactionView {
            runtime_root: self.runtime_root@,
            config_path: self.config_path@,
            transaction_id: self.transaction_id@,
            plan: self.plan@,
            require_root_owner: self.require_root_owner,
            state: self.state,
            pending: self.pending,
            source_digest: opt(self.source_digest),
            source_uci: opt(self.source_uci),
            source_bytes: opt(self.source_bytes),
            snapshot: opt(self.snapshot),
            expected: opt(self.expected),
            stage: opt(self.stage),
            staging_dir: opt(self.staging_dir),
        }
    }
}

impl OpenWrtNetworkTransaction {
    /// How far the transaction is.
    pub fn state(&self) -> (r: TransactionState)
        ensures
            r == self@.state,
    {
        self.state
    }

    /// The plan of the transaction.
    pub fn plan(&self) -> (r: &NetworkMutationPlan)
        ensures
            r@ == self@.plan,
    {
        &self.plan
    }

    /// The directory below which the transaction stages.
    pub fn runtime_root(&self) -> (r: &str)
        ensures
            r@ == self@.runtime_root,
    {
        self.runtime_root.as_str()
    }

    /// The file of the package.
    pub fn config_path(&self) -> (r: &str)
        ensures
            r@ == self@.config_path,
    {
        self.config_path.as_str()
    }

    /// Whether files and directories have to belong to the superuser.
    pub fn require_root_owner(&self) -> (r: bool)
        ensures
            r == self@.require_root_owner,
    {
        self.require_root_owner
    }
}

impl OpenWrtNetworkTransaction {
    /// Creates a transaction on the live configuration, below the volatile directory.
    pub fn system(
        runtime_root: String,
        transaction_id: &str,
        plan: NetworkMutationPlan,
        plan_valid: bool,
    ) -> (r: Result<OpenWrtNetworkTransaction, OpenWrtNetworkExecutionError>)
        ensures
            vres(r) == created(
                runtime_root@,
                "/etc/config/network"@,
                transaction_id@,
                plan@,
                plan_valid,
                true,
            ),
    {
        OpenWrtNetworkTransaction::new(
            runtime_root,
            "/etc/config/network".to_owned(),
            transaction_id,
            plan,
            plan_valid,
            true,
        )
    }

    /// Creates a transaction. The plan comes with the verdict of the planner on it.
    pub fn new(
        runtime_root: String,
        config_path: String,
        transaction_id: &str,
        plan: NetworkMutationPlan,
        plan_valid: bool,
        require_root_owner: bool,
    ) -> (r: Result<OpenWrtNetworkTransaction, OpenWrtNetworkExecutionError>)
        ensures
            vres(r) == created(
                runtime_root@,
                config_path@,
                transaction_id@,
                plan@,
                plan_valid,
                require_root_owner,
            ),
    {
        if !transaction_name(transaction_id) {
            return Err(OpenWrtNetworkExecutionError::InvalidTransaction);
        }
        if !plan_valid {
            return Err(OpenWrtNetworkExecutionError::InvalidPlan);
        }
        if require_root_owner && !safe_system_runtime_root(runtime_root.as_str()) {
            return Err(OpenWrtNetworkExecutionError::UnsafeRuntime);
        }
        Ok(
            OpenWrtNetworkTransaction {
                runtime_root,
                config_path,
                transaction_id: transaction_id.to_owned(),
                plan,
                require_root_owner,
                state: TransactionState::New,
                pending: Pending::Nothing,
                source_digest: None,
                source_uci: None,
                source_bytes: None,
                snapshot: None,
                expected: None,
                stage: None,
                staging_dir: None,
            },
        )
    }

    /// Binds the plan to the live package.
    ///
    /// The reply is that to the command that shows the package. The verdicts are those of the object
    /// model on its sections, and the projection is the inventory that the planner foresees, unless it
    /// refuses the plan.
    pub fn reinspect(
        &mut self,
        config: &ConfigRead,
        reply: Result<FirewallCommandOutput, FirewallCommandError>,
        valid: &[bool],
        projected: Option<NetworkInventory>,
    ) -> (r: Result<(), OpenWrtNetworkExecutionError>)
        ensures
            match r {
                Ok(()) => reinspected(
                    old(self)@,
                    config@,
                    vres(reply),
                    valid@,
                    opt(projected),
                ) == Ok::<
                    OpenWrtNetworkTransactionView,
                    OpenWrtNetworkExecutionErrorView,
                >(final(self)@),
                Err(e) => reinspected(
                    old(self)@,
                    config@,
                    vres(reply),
                    valid@,
                    opt(projected),
                ) == Err::<
                    OpenWrtNetworkTransactionView,
                    OpenWrtNetworkExecutionErrorView,
                >(e@) && final(self)@ == old(self)@,
            },
    {
        if self.state != TransactionState::New {
            return Err(OpenWrtNetworkExecutionError::InvalidState);
        }
        match check_config(config, self.require_root_owner) {
            Some(ConfigFault::Unsafe) => {
                return Err(OpenWrtNetworkExecutionError::UnsafeConfig);
            },
            Some(ConfigFault::Changed) => {
                return Err(OpenWrtNetworkExecutionError::SourceDrift);
            },
            None => {},
        }
        let output = match reply {
            Ok(o) => o,
            Err(e) => {
                return Err(OpenWrtNetworkExecutionError::Command(e));
            },
        };
        let snapshot = match inspect_output(&output, valid) {
            Ok(s) => s,
            Err(e) => {
                return Err(e);
            },
        };
        let expected = match projected {
            Some(p) => p,
            None => {
                return Err(OpenWrtNetworkExecutionError::StalePlan);
            },
        };
        let stage = match render_openwrt_network_stage_from_snapshot(&self.plan, &snapshot) {
            Ok(s) => s,
            Err(e) => {
                return Err(OpenWrtNetworkExecutionError::Render(e));
            },
        };
        proof {
            lemma_bytes(output.stdout@);
        }
        self.source_digest = hex_digest(config.bytes.as_slice());
        self.source_bytes = Some(copy_bytes(config.bytes.as_slice()));
        self.source_uci = Some(output.stdout);
        self.snapshot = Some(snapshot);
        self.expected = Some(expected);
        self.stage = Some(stage);
        self.state = TransactionState::Inspected;
        Ok(())
    }

    /// Begins to stage: names the directory to create, the file to put there, and the commands to
    /// run then.
    pub fn begin_stage(&mut self) -> (r: Result<StagingPlan, OpenWrtNetworkExecutionError>)
        ensures
            match r {
                Ok(p) => staging_plan(old(self)@) == Ok::<
                    StagingPlanView,
                    OpenWrtNetworkExecutionErrorView,
                >(p@)
                   
                       && final(self)@ == (OpenWrtNetworkTransactionView { pending: Pending::Stage, ..old(self)@ }),
                Err(e) => staging_plan(old(self)@) == Err::<
                    StagingPlanView,
                    OpenWrtNetworkExecutionErrorView,
                >(e@)
                    && final(self)@ == old(self)@,
            },
    {
        if self.state != TransactionState::Inspected {
            return Err(OpenWrtNetworkExecutionError::InvalidState);
        }
        let plan = match (&self.source_bytes, &self.stage) {
            (Some(source), Some(stage)) => {
                let dir = staging_directory(
                    self.runtime_root.as_str(),
                    self.transaction_id.as_str(),
                );
                let mut invocations: Vec<Invocation> = Vec::new();
                invocations.push(
                    run_with(
                        FirewallCommand::UciBatch { staging_dir: dir.clone() },
                        stage.uci_batch.as_str(),
                    ),
                );
                invocations.push(run_bare(FirewallCommand::UciShowNetworkAt { staging_dir: dir.clone() }));
                assert(views(invocations@) =~= stage_commands(dir@, stage@.uci_batch));
                StagingPlan {
                    staging_root: staging_root(self.runtime_root.as_str()),
                    file: join_path(dir.as_str(), "network"),
                    staging_dir: dir,
                    contents: copy_bytes(source.as_slice()),
                    invocations,
                }
            },
            _ => {
                return Err(OpenWrtNetworkExecutionError::InvalidState);
            },
        };
        self.pending = Pending::Stage;
        Ok(plan)
    }

    /// Notes that the directory of the stage was created.
    pub fn stage_created(&mut self) -> (r: Result<(), OpenWrtNetworkExecutionError>)
        ensures
            match r {
                Ok(()) => old(self)@.pending == Pending::Stage
                    && final(self)@ == (OpenWrtNetworkTransactionView {
                    staging_dir: Some(
                        staging_dir_of(old(self)@.runtime_root, old(self)@.transaction_id),
                    ),
                    ..old(self)@
                }),
                Err(e) => old(self)@.pending != Pending::Stage && e@ == OpenWrtNetworkExecutionErrorView::InvalidState
                    && final(self)@ == old(self)@,
            },
    {
        if self.pending != Pending::Stage {
            return Err(OpenWrtNetworkExecutionError::InvalidState);
        }
        self.staging_dir = Some(
            staging_directory(self.runtime_root.as_str(), self.transaction_id.as_str()),
        );
        Ok(())
    }

    /// Checks what the commands of the stage replied: the staged package has to hold what the plan
    /// foresees.
    pub fn finish_stage(
        &mut self,
        replies: &Vec<Result<FirewallCommandOutput, FirewallCommandError>>,
        valid: &[bool],
    ) -> (r: Result<(), OpenWrtNetworkExecutionError>)
        ensures
            match r {
                Ok(()) => staged(old(self)@, reply_views(replies@), valid@) == Ok::<
                    OpenWrtNetworkTransactionView,
                    OpenWrtNetworkExecutionErrorView,
                >(final(self)@),
                Err(e) => staged(old(self)@, reply_views(replies@), valid@) == Err::<
                    OpenWrtNetworkTransactionView,
                    OpenWrtNetworkExecutionErrorView,
                >(e@) && final(self)@ == settled(old(self)@),
            },
    {
        let waited = self.pending == Pending::Stage;
        self.pending = Pending::Nothing;
        if self.state != TransactionState::Inspected || !waited || self.staging_dir.is_none() {
            return Err(OpenWrtNetworkExecutionError::InvalidState);
        }
        match failure(replies) {
            Some(e) => {
                return Err(OpenWrtNetworkExecutionError::Command(e));
            },
            None => {},
        }
        if replies.len() != 2 {
            return Err(OpenWrtNetworkExecutionError::InvalidState);
        }
        proof {
            lemma_no_failure(reply_views(replies@), 0, 1);
        }
        let output = match &replies[1] {
            Ok(o) => o,
            Err(_) => {
                return Err(OpenWrtNetworkExecutionError::InvalidState);
            },
        };
        let snapshot = match inspect_output(output, valid) {
            Ok(s) => s,
            Err(e) => {
                return Err(e);
            },
        };
        match &self.expected {
            None => {
                return Err(OpenWrtNetworkExecutionError::InvalidState);
            },
            Some(expected) => {
                if !inventory_equal(&snapshot.inventory().objects, &expected.objects) {
                    return Err(OpenWrtNetworkExecutionError::StagedStateMismatch);
                }
            },
        }
        self.state = TransactionState::Staged;
        Ok(())
    }

    /// Begins to validate: names the native checks to run on the stage.
    pub fn begin_validation(&mut self) -> (r: Result<Vec<Invocation>, OpenWrtNetworkExecutionError>)
        ensures
            match r {
                Ok(v) => validation_plan(old(self)@) == Ok::<
                    Seq<InvocationView>,
                    OpenWrtNetworkExecutionErrorView,
                >(
                    views(v@),
                )
                    && final(self)@ == (OpenWrtNetworkTransactionView { pending: Pending::Validation, ..old(self)@ }),
                Err(e) => validation_plan(old(self)@) == Err::<
                    Seq<InvocationView>,
                    OpenWrtNetworkExecutionErrorView,
                >(
                    e@,
                ) && final(self)@ == old(self)@,
            },
    {
        if self.state != TransactionState::Staged {
            return Err(OpenWrtNetworkExecutionError::InvalidState);
        }
        let list = match (&self.staging_dir, &self.stage) {
            (Some(dir), Some(stage)) => checks(&stage.validations, dir.as_str()),
            _ => {
                return Err(OpenWrtNetworkExecutionError::InvalidState);
            },
        };
        self.pending = Pending::Validation;
        Ok(list)
    }

    /// Checks what the native checks replied.
    pub fn finish_validation(
        &mut self,
        replies: &Vec<Result<FirewallCommandOutput, FirewallCommandError>>,
    ) -> (r: Result<(), OpenWrtNetworkExecutionError>)
        ensures
            match r {
                Ok(()) => validated(old(self)@, reply_views(replies@)) == Ok::<
                    OpenWrtNetworkTransactionView,
                    OpenWrtNetworkExecutionErrorView,
                >(final(self)@),
                Err(e) => validated(old(self)@, reply_views(replies@)) == Err::<
                    OpenWrtNetworkTransactionView,
                    OpenWrtNetworkExecutionErrorView,
                >(e@) && final(self)@ == settled(old(self)@),
            },
    {
        let waited = self.pending == Pending::Validation;
        self.pending = Pending::Nothing;
        if self.state != TransactionState::Staged || !waited {
            return Err(OpenWrtNetworkExecutionError::InvalidState);
        }
        match failure(replies) {
            Some(e) => {
                return Err(OpenWrtNetworkExecutionError::Command(e));
            },
            None => {},
        }
        match &self.stage {
            None => {
                return Err(OpenWrtNetworkExecutionError::InvalidState);
            },
            Some(stage) => {
                if replies.len() != stage.validations.len() {
                    return Err(OpenWrtNetworkExecutionError::InvalidState);
                }
            },
        }
        self.state = TransactionState::Validated;
        Ok(())
    }

    /// Runs the checks of the validation, and takes what they replied.
    pub fn validate_stage<E: FirewallCommandExecutor>(
        &mut self,
        executor: &E,
    ) -> (r: Result<(), OpenWrtNetworkExecutionError>)
        ensures
            match validation_plan(old(self)@) {
                Err(e) => r is Err && r->Err_0@ == e && final(self)@ == old(self)@,
                Ok(list) => {
                    let begun = OpenWrtNetworkTransactionView { pending: Pending::Validation, ..old(self)@ };
                    exists|replies: Seq<Result<FirewallCommandOutputView, FirewallCommandErrorView>>|
                        #[trigger] may_replies(executor, list, replies) && match r {
                            Ok(()) => validated(begun, replies) == Ok::<
                                OpenWrtNetworkTransactionView,
                                OpenWrtNetworkExecutionErrorView,
                            >(
                                final(self)@,
                            ),
                            Err(e) => validated(begun, replies) == Err::<
                                OpenWrtNetworkTransactionView,
                                OpenWrtNetworkExecutionErrorView,
                            >(e@)
                                && final(self)@ == settled(begun),
                        }
                },
            },
    {
        let list = match self.begin_validation() {
            Ok(list) => list,
            Err(e) => {
                return Err(e);
            },
        };
        let replies = run_all(executor, list.as_slice());
        assert(may_replies(executor, validation_plan(old(self)@)->Ok_0, reply_views(replies@)));
        self.finish_validation(&replies)
    }

    /// Checks that the transaction may be activated and that the live package is what it was, and hands
    /// the reply back.
    pub fn check_shown(&self, reply: Result<FirewallCommandOutput, FirewallCommandError>) -> (r: Result<
        FirewallCommandOutput,
        OpenWrtNetworkExecutionError,
    >)
        ensures
            match r {
                Ok(o) => reply == Ok::<FirewallCommandOutput, FirewallCommandError>(o) && shown_fault(
                    self@,
                    vres(reply),
                ) is None,
                Err(e) => shown_fault(self@, vres(reply)) == Some(e@),
            },
    {
        if self.state != TransactionState::Validated {
            return Err(OpenWrtNetworkExecutionError::InvalidState);
        }
        let output = match reply {
            Ok(o) => o,
            Err(e) => {
                return Err(OpenWrtNetworkExecutionError::Command(e));
            },
        };
        proof {
            lemma_bytes(output.stdout@);
        }
        let same_uci = match &self.source_uci {
            Some(b) => same_bytes(b.as_slice(), output.stdout.as_slice()),
            None => false,
        };
        if !same_uci {
            return Err(OpenWrtNetworkExecutionError::SourceDrift);
        }
        Ok(output)
    }

    /// Begins to activate, once an independent rollback is armed: the live package and its file have to be
    /// what they were. Names the file to install and the command to run then.
    pub fn begin_activation(
        &mut self,
        reply: Result<FirewallCommandOutput, FirewallCommandError>,
        config: &ConfigRead,
    ) -> (r: Result<InstallPlan, OpenWrtNetworkExecutionError>)
        ensures
            match r {
                Ok(p) => install_plan(old(self)@, vres(reply), config@) == Ok::<
                    InstallPlanView,
                    OpenWrtNetworkExecutionErrorView,
                >(p@)
                    && final(self)@ == (OpenWrtNetworkTransactionView { pending: Pending::Activation, ..old(self)@ }),
                Err(e) => install_plan(old(self)@, vres(reply), config@) == Err::<
                    InstallPlanView,
                    OpenWrtNetworkExecutionErrorView,
                >(e@) && final(self)@ == old(self)@,
            },
    {
        match self.check_shown(reply) {
            Ok(_) => {},
            Err(e) => {
                return Err(e);
            },
        }
        match check_config(config, self.require_root_owner) {
            Some(ConfigFault::Unsafe) => {
                return Err(OpenWrtNetworkExecutionError::UnsafeConfig);
            },
            Some(ConfigFault::Changed) => {
                return Err(OpenWrtNetworkExecutionError::SourceDrift);
            },
            None => {},
        }
        proof {
            lemma_config_digest(config@, self@.require_root_owner);
        }
        let fresh = hex_digest(config.bytes.as_slice());
        if !same_opt(&self.source_digest, &fresh) {
            return Err(OpenWrtNetworkExecutionError::SourceDrift);
        }
        let plan = match &self.staging_dir {
            None => {
                return Err(OpenWrtNetworkExecutionError::InvalidState);
            },
            Some(dir) => InstallPlan {
                staged: join_path(dir.as_str(), "network"),
                destination: self.config_path.clone(),
                temporary_name: temporary_name(self.transaction_id.as_str()),
                reload: run_bare(FirewallCommand::OpenWrtNetworkReload),
            },
        };
        self.pending = Pending::Activation;
        Ok(plan)
    }

    /// Checks what the reload replied, once the file was installed.
    pub fn finish_activation(
        &mut self,
        reload: Result<FirewallCommandOutput, FirewallCommandError>,
    ) -> (r: Result<(), OpenWrtNetworkExecutionError>)
        ensures
            match r {
                Ok(()) => activated(old(self)@, vres(reload)) == Ok::<
                    OpenWrtNetworkTransactionView,
                    OpenWrtNetworkExecutionErrorView,
                >(
                    final(self)@,
                ),
                Err(e) => activated(old(self)@, vres(reload)) == Err::<
                    OpenWrtNetworkTransactionView,
                    OpenWrtNetworkExecutionErrorView,
                >(e@)
                    && final(self)@ == settled(old(self)@),
            },
    {
        let waited = self.pending == Pending::Activation;
        self.pending = Pending::Nothing;
        if self.state != TransactionState::Validated || !waited {
            return Err(OpenWrtNetworkExecutionError::InvalidState);
        }
        match reload {
            Err(e) => Err(OpenWrtNetworkExecutionError::Command(e)),
            Ok(_) => {
                self.state = TransactionState::Activated;
                Ok(())
            },
        }
    }

    /// Checks that the live package holds what the plan foresees.
    pub fn verify(
        &mut self,
        reply: Result<FirewallCommandOutput, FirewallCommandError>,
        valid: &[bool],
    ) -> (r: Result<(), OpenWrtNetworkExecutionError>)
        ensures
            match r {
                Ok(()) => verified(old(self)@, vres(reply), valid@) == Ok::<
                    OpenWrtNetworkTransactionView,
                    OpenWrtNetworkExecutionErrorView,
                >(final(self)@),
                Err(e) => verified(old(self)@, vres(reply), valid@) == Err::<
                    OpenWrtNetworkTransactionView,
                    OpenWrtNetworkExecutionErrorView,
                >(e@) && final(self)@ == old(self)@,
            },
    {
        if self.state != TransactionState::Activated {
            return Err(OpenWrtNetworkExecutionError::InvalidState);
        }
        let output = match reply {
            Ok(o) => o,
            Err(e) => {
                return Err(OpenWrtNetworkExecutionError::Command(e));
            },
        };
        let snapshot = match inspect_output(&output, valid) {
            Ok(s) => s,
            Err(e) => {
                return Err(e);
            },
        };
        match &self.expected {
            None => {
                return Err(OpenWrtNetworkExecutionError::InvalidState);
            },
            Some(expected) => {
                if !inventory_equal(&snapshot.inventory().objects, &expected.objects) {
                    return Err(OpenWrtNetworkExecutionError::VerificationFailed);
                }
            },
        }
        self.state = TransactionState::Verified;
        Ok(())
    }

    /// Gives up the stage: the directory that is to be removed, where one was created.
    pub fn discard_stage(&mut self) -> (r: Option<String>)
        ensures
            opt(r) == old(self)@.staging_dir,
            final(self)@ == (OpenWrtNetworkTransactionView { staging_dir: None, ..old(self)@ }),
    {
        let r = copy_opt(&self.staging_dir);
        self.staging_dir = None;
        r
    }
}

/// The package that a command printed.
pub open spec fn inspected(output: FirewallCommandOutputView, valid: Seq<bool>) -> Result<
    OpenWrtNetworkInventorySnapshotView,
    OpenWrtNetworkExecutionErrorView,
> {
    match utf8_value(output.stdout) {
        None => Err(OpenWrtNetworkExecutionErrorView::MalformedInspection),
        Some(text) => match network_snapshot(text, ""@, valid, Seq::empty()) {
            Ok(s) => Ok(s),
            Err(e) => Err(OpenWrtNetworkExecutionErrorView::Render(e)),
        },
    }
}

fn inspect_output(
    output: &FirewallCommandOutput,
    valid: &[bool],
) -> (r: Result<OpenWrtNetworkInventorySnapshot, OpenWrtNetworkExecutionError>)
    ensures
        vres(r) == inspected(output@, valid@),
{
    proof {
        lemma_bytes(output.stdout@);
    }
    match utf8_text(copy_bytes(output.stdout.as_slice())) {
        None => Err(OpenWrtNetworkExecutionError::MalformedInspection),
        Some(text) => match inspect_openwrt_network_inventory(text.as_str(), valid) {
            Ok(s) => Ok(s),
            Err(e) => Err(OpenWrtNetworkExecutionError::Render(e)),
        },
    }
}

/// The transaction that a plan starts, or why it does not.
pub open spec fn created(
    runtime_root: Seq<char>,
    config_path: Seq<char>,
    transaction_id: Seq<char>,
    plan: NetworkMutationPlanView,
    plan_valid: bool,
    require_root_owner: bool,
) -> Result<OpenWrtNetworkTransactionView, OpenWrtNetworkExecutionErrorView> {
    if !is_transaction_id(transaction_id) {
        Err(OpenWrtNetworkExecutionErrorView::InvalidTransaction)
    } else if !plan_valid {
        Err(OpenWrtNetworkExecutionErrorView::InvalidPlan)
    } else if require_root_owner && !is_system_root(runtime_root) {
        Err(OpenWrtNetworkExecutionErrorView::UnsafeRuntime)
    } else {
        Ok(
            OpenWrtNetworkTransactionView {
                runtime_root,
                config_path,
                transaction_id,
                plan,
                require_root_owner,
                state: TransactionState::New,
                pending: Pending::Nothing,
                source_digest: None,
                source_uci: None,
                source_bytes: None,
                snapshot: None,
                expected: None,
                stage: None,
                staging_dir: None,
            },
        )
    }
}

/// A transaction that waits for no commands.
pub open spec fn settled(t: OpenWrtNetworkTransactionView) -> OpenWrtNetworkTransactionView {
    OpenWrtNetworkTransactionView { pending: Pending::Nothing, ..t }
}

/// What is wrong with the configuration file, as an error of the transaction.
pub open spec fn config_error(fault: ConfigFault) -> OpenWrtNetworkExecutionErrorView {
    match fault {
        ConfigFault::Unsafe => OpenWrtNetworkExecutionErrorView::UnsafeConfig,
        ConfigFault::Changed => OpenWrtNetworkExecutionErrorView::SourceDrift,
    }
}

/// The transaction once it was bound to the live package.
pub open spec fn reinspected(
    t: OpenWrtNetworkTransactionView,
    config: ConfigReadView,
    reply: Result<FirewallCommandOutputView, FirewallCommandErrorView>,
    valid: Seq<bool>,
    projected: Option<NetworkInventoryView>,
) -> Result<OpenWrtNetworkTransactionView, OpenWrtNetworkExecutionErrorView> {
    if t.state != TransactionState::New {
        Err(OpenWrtNetworkExecutionErrorView::InvalidState)
    } else if let Some(fault) = config_fault(config, t.require_root_owner) {
        Err(config_error(fault))
    } else {
        match reply {
            Err(e) => Err(OpenWrtNetworkExecutionErrorView::Command(e)),
            Ok(output) => match inspected(output, valid) {
                Err(e) => Err(e),
                Ok(snapshot) => match projected {
                    None => Err(OpenWrtNetworkExecutionErrorView::StalePlan),
                    Some(expected) => match network_stage(t.plan.changes, snapshot) {
                        Err(e) => Err(OpenWrtNetworkExecutionErrorView::Render(e)),
                        Ok(stage) => Ok(
                            OpenWrtNetworkTransactionView {
                                source_digest: hex_digest_of(config.bytes),
                                source_bytes: Some(config.bytes),
                                source_uci: Some(output.stdout),
                                snapshot: Some(snapshot),
                                expected: Some(expected),
                                stage: Some(stage),
                                state: TransactionState::Inspected,
                                ..t
                            },
                        ),
                    },
                },
            },
        }
    }
}

/// The commands of a stage: apply the batch, and show what came of it.
pub open spec fn stage_commands(dir: Seq<char>, batch: Seq<char>) -> Seq<InvocationView> {
    seq![
        InvocationView {
            command: FirewallCommandView::UciBatch { staging_dir: dir },
            stdin: Some(encode_utf8(batch)),
        },
        bare_run(FirewallCommandView::UciShowNetworkAt { staging_dir: dir }),
    ]
}

/// What is to be staged: the live file, with the batch on it.
pub open spec fn staging_plan(
    t: OpenWrtNetworkTransactionView,
) -> Result<StagingPlanView, OpenWrtNetworkExecutionErrorView> {
    let dir = staging_dir_of(t.runtime_root, t.transaction_id);
    if t.state != TransactionState::Inspected {
        Err(OpenWrtNetworkExecutionErrorView::InvalidState)
    } else {
        match (t.source_bytes, t.stage) {
            (Some(contents), Some(stage)) => Ok(
                StagingPlanView {
                    staging_root: staging_root_of(t.runtime_root),
                    staging_dir: dir,
                    file: path_join(dir, "network"@),
                    contents,
                    invocations: stage_commands(dir, stage.uci_batch),
                },
            ),
            _ => Err(OpenWrtNetworkExecutionErrorView::InvalidState),
        }
    }
}

/// The transaction once its stage was found to hold what the plan foresees.
pub open spec fn staged(
    t: OpenWrtNetworkTransactionView,
    replies: Seq<Result<FirewallCommandOutputView, FirewallCommandErrorView>>,
    valid: Seq<bool>,
) -> Result<OpenWrtNetworkTransactionView, OpenWrtNetworkExecutionErrorView> {
    if t.state != TransactionState::Inspected || t.pending != Pending::Stage || t.staging_dir is None {
        Err(OpenWrtNetworkExecutionErrorView::InvalidState)
    } else if let Some(e) = first_failure(replies, 0) {
        Err(OpenWrtNetworkExecutionErrorView::Command(e))
    } else if replies.len() != 2 {
        Err(OpenWrtNetworkExecutionErrorView::InvalidState)
    } else {
        match inspected(replies[1]->Ok_0, valid) {
            Err(e) => Err(e),
            Ok(snapshot) => match t.expected {
                None => Err(OpenWrtNetworkExecutionErrorView::InvalidState),
                Some(expected) => if same_inventory::<NetworkObject>(
                    snapshot.inventory.objects,
                    expected.objects,
                ) {
                    Ok(
                        OpenWrtNetworkTransactionView {
                            state: TransactionState::Staged,
                            pending: Pending::Nothing,
                            ..t
                        },
                    )
                } else {
                    Err(OpenWrtNetworkExecutionErrorView::StagedStateMismatch)
                },
            },
        }
    }
}

/// The native checks, as commands on a directory.
pub open spec fn check_commands(validations: Seq<OpenWrtNetworkValidation>, dir: Seq<char>) -> Seq<
    InvocationView,
> {
    Seq::new(
        validations.len(),
        |i: int| bare_run(FirewallCommandView::UciExportNetworkAt { staging_dir: dir }),
    )
}

fn checks(validations: &Vec<OpenWrtNetworkValidation>, dir: &str) -> (r: Vec<Invocation>)
    ensures
        views(r@) == check_commands(validations@, dir@),
{
    let ghost want = check_commands(validations@, dir@);
    let mut r: Vec<Invocation> = Vec::new();
    let mut i: usize = 0;
    while i < validations.len()
        invariant
            i <= validations@.len(),
            want == check_commands(validations@, dir@),
            views(r@) =~= want.take(i as int),
        decreases validations@.len() - i,
    {
        r.push(run_bare(FirewallCommand::UciExportNetworkAt { staging_dir: dir.to_owned() }));
        i = i + 1;
    }
    assert(want.take(i as int) =~= want);
    r
}

/// The native checks of a stage.
pub open spec fn validation_plan(
    t: OpenWrtNetworkTransactionView,
) -> Result<Seq<InvocationView>, OpenWrtNetworkExecutionErrorView> {
    if t.state != TransactionState::Staged {
        Err(OpenWrtNetworkExecutionErrorView::InvalidState)
    } else {
        match (t.staging_dir, t.stage) {
            (Some(dir), Some(stage)) => Ok(check_commands(stage.validations, dir)),
            _ => Err(OpenWrtNetworkExecutionErrorView::InvalidState),
        }
    }
}

/// The transaction once every native check succeeded.
pub open spec fn validated(
    t: OpenWrtNetworkTransactionView,
    replies: Seq<Result<FirewallCommandOutputView, FirewallCommandErrorView>>,
) -> Result<OpenWrtNetworkTransactionView, OpenWrtNetworkExecutionErrorView> {
    if t.state != TransactionState::Staged || t.pending != Pending::Validation {
        Err(OpenWrtNetworkExecutionErrorView::InvalidState)
    } else if let Some(e) = first_failure(replies, 0) {
        Err(OpenWrtNetworkExecutionErrorView::Command(e))
    } else if t.stage is None || replies.len() != t.stage->Some_0.validations.len() {
        Err(OpenWrtNetworkExecutionErrorView::InvalidState)
    } else {
        Ok(
            OpenWrtNetworkTransactionView {
                state: TransactionState::Validated,
                pending: Pending::Nothing,
                ..t
            },
        )
    }
}

/// What keeps the transaction from being activated, by its state and by what the live package shows.
pub open spec fn shown_fault(
    t: OpenWrtNetworkTransactionView,
    reply: Result<FirewallCommandOutputView, FirewallCommandErrorView>,
) -> Option<OpenWrtNetworkExecutionErrorView> {
    if t.state != TransactionState::Validated {
        Some(OpenWrtNetworkExecutionErrorView::InvalidState)
    } else {
        match reply {
            Err(e) => Some(OpenWrtNetworkExecutionErrorView::Command(e)),
            Ok(output) => if t.source_uci != Some(output.stdout) {
                Some(OpenWrtNetworkExecutionErrorView::SourceDrift)
            } else {
                None
            },
        }
    }
}

/// What is to be installed, where the live package and its file are what they were.
pub open spec fn install_plan(
    t: OpenWrtNetworkTransactionView,
    reply: Result<FirewallCommandOutputView, FirewallCommandErrorView>,
    config: ConfigReadView,
) -> Result<InstallPlanView, OpenWrtNetworkExecutionErrorView> {
    match shown_fault(t, reply) {
        Some(e) => Err(e),
        None => if let Some(fault) = config_fault(config, t.require_root_owner) {
            Err(config_error(fault))
        } else if t.source_digest != hex_digest_of(config.bytes) {
            Err(OpenWrtNetworkExecutionErrorView::SourceDrift)
        } else {
            match t.staging_dir {
                None => Err(OpenWrtNetworkExecutionErrorView::InvalidState),
                Some(dir) => Ok(
                    InstallPlanView {
                        staged: path_join(dir, "network"@),
                        destination: t.config_path,
                        temporary_name: temporary_name_of(t.transaction_id),
                        reload: bare_run(FirewallCommandView::OpenWrtNetworkReload),
                    },
                ),
            }
        },
    }
}

/// The transaction once the file was installed and the service reloaded.
pub open spec fn activated(
    t: OpenWrtNetworkTransactionView,
    reload: Result<FirewallCommandOutputView, FirewallCommandErrorView>,
) -> Result<OpenWrtNetworkTransactionView, OpenWrtNetworkExecutionErrorView> {
    if t.state != TransactionState::Validated || t.pending != Pending::Activation {
        Err(OpenWrtNetworkExecutionErrorView::InvalidState)
    } else {
        match reload {
            Err(e) => Err(OpenWrtNetworkExecutionErrorView::Command(e)),
            Ok(_) => Ok(
                OpenWrtNetworkTransactionView {
                    state: TransactionState::Activated,
                    pending: Pending::Nothing,
                    ..t
                },
            ),
        }
    }
}

/// The transaction once the live package was found to hold what the plan foresees.
pub open spec fn verified(
    t: OpenWrtNetworkTransactionView,
    reply: Result<FirewallCommandOutputView, FirewallCommandErrorView>,
    valid: Seq<bool>,
) -> Result<OpenWrtNetworkTransactionView, OpenWrtNetworkExecutionErrorView> {
    if t.state != TransactionState::Activated {
        Err(OpenWrtNetworkExecutionErrorView::InvalidState)
    } else {
        match reply {
            Err(e) => Err(OpenWrtNetworkExecutionErrorView::Command(e)),
            Ok(output) => match inspected(output, valid) {
                Err(e) => Err(e),
                Ok(snapshot) => match t.expected {
                    None => Err(OpenWrtNetworkExecutionErrorView::InvalidState),
                    Some(expected) => if same_inventory::<NetworkObject>(
                        snapshot.inventory.objects,
                        expected.objects,
                    ) {
                        Ok(OpenWrtNetworkTransactionView { state: TransactionState::Verified, ..t })
                    } else {
                        Err(OpenWrtNetworkExecutionErrorView::VerificationFailed)
                    },
                },
            },
        }
    }
}

/// Whether the live package holds what a plan was to achieve.
pub open spec fn plan_verified(
    plan_valid: bool,
    reply: Result<FirewallCommandOutputView, FirewallCommandErrorView>,
    valid: Seq<bool>,
    confirmed: bool,
) -> Result<(), OpenWrtNetworkExecutionErrorView> {
    if !plan_valid {
        Err(OpenWrtNetworkExecutionErrorView::InvalidPlan)
    } else {
        match reply {
            Err(e) => Err(OpenWrtNetworkExecutionErrorView::Command(e)),
            Ok(output) => match inspected(output, valid) {
                Err(e) => Err(e),
                Ok(_) => if confirmed {
                    Ok(())
                } else {
                    Err(OpenWrtNetworkExecutionErrorView::VerificationFailed)
                },
            },
        }
    }
}

/// Verifies every object that a plan touches, given the verdicts of the planner on the plan and on
/// the inventory that the package holds.
pub fn verify_openwrt_network_plan(
    plan_valid: bool,
    reply: Result<FirewallCommandOutput, FirewallCommandError>,
    valid: &[bool],
    confirmed: bool,
) -> (r: Result<(), OpenWrtNetworkExecutionError>)
    ensures
        match r {
            Ok(()) => plan_verified(plan_valid, vres(reply), valid@, confirmed) is Ok,
            Err(e) => plan_verified(plan_valid, vres(reply), valid@, confirmed) == Err::<
                (),
                OpenWrtNetworkExecutionErrorView,
            >(e@),
        },
{
    if !plan_valid {
        return Err(OpenWrtNetworkExecutionError::InvalidPlan);
    }
    let output = match reply {
        Ok(o) => o,
        Err(e) => {
            return Err(OpenWrtNetworkExecutionError::Command(e));
        },
    };
    match inspect_output(&output, valid) {
        Err(e) => Err(e),
        Ok(_) => if confirmed {
            Ok(())
        } else {
            Err(OpenWrtNetworkExecutionError::VerificationFailed)
        },
    }
}


/// A file is installed only over the configuration that was inspected: the command shows the same
/// package, and the file has the same digest.
pub proof fn law_install_requires_unchanged_source(
    t: OpenWrtNetworkTransactionView,
    reply: Result<FirewallCommandOutputView, FirewallCommandErrorView>,
    config: ConfigReadView,
)
    requires
        install_plan(t, reply, config) is Ok,
    ensures
        t.state == TransactionState::Validated,
        reply is Ok,
        t.source_uci == Some(reply->Ok_0.stdout),
        t.source_digest == hex_digest_of(config.bytes),
        hex_digest_of(config.bytes) is Some,
{
    lemma_config_digest(config, t.require_root_owner);
}

/// The steps of a transaction come in one order, and each is taken at most once.
pub proof fn law_steps_come_in_order(
    t: OpenWrtNetworkTransactionView,
    config: ConfigReadView,
    reply: Result<FirewallCommandOutputView, FirewallCommandErrorView>,
    replies: Seq<Result<FirewallCommandOutputView, FirewallCommandErrorView>>,
    valid: Seq<bool>,
    projected: Option<NetworkInventoryView>,
)
    ensures
        reinspected(t, config, reply, valid, projected) matches Ok(n) ==> t.state
            == TransactionState::New && n.state == TransactionState::Inspected,
        staged(t, replies, valid) matches Ok(n) ==> t.state == TransactionState::Inspected && n.state
            == TransactionState::Staged,
        validated(t, replies) matches Ok(n) ==> t.state == TransactionState::Staged && n.state
            == TransactionState::Validated,
        activated(t, reply) matches Ok(n) ==> t.state == TransactionState::Validated && n.state
            == TransactionState::Activated,
        verified(t, reply, valid) matches Ok(n) ==> t.state == TransactionState::Activated && n.state
            == TransactionState::Verified,
{
}

} // verus!
