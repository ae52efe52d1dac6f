//! The transaction on the firewall package.

use vstd::prelude::*;

use vstd::string::*;
use vstd::utf8::*;

use crate::firewall_command::{
    FirewallCommand, FirewallCommandError, FirewallCommandErrorView, FirewallCommandExecutor, FirewallCommandOutput,
    FirewallCommandOutputView, FirewallCommandView,
};
use crate::inventory_match::{inventory_equal, same_inventory};
use crate::items::{copy_opt, same_opt};
use crate::network_runtime::lemma_bytes;
use crate::path::{join_path, path_join};
use crate::text::{utf8_text, utf8_value};
use crate::transaction::{
    bare_run, check_config, config_fault, copy_bytes, failure, first_failure, hex_digest, hex_digest_of,
    is_system_root, is_transaction_id, lemma_config_digest, lemma_no_failure, may_replies, reply_views, run_all,
    run_bare, run_with, safe_system_runtime_root, same_bytes, staging_dir_of, staging_directory, staging_root,
    staging_root_of, temporary_name, temporary_name_of, transaction_name, ConfigFault, ConfigRead, ConfigReadView,
    InstallPlan, InstallPlanView, Invocation, InvocationView, Pending, StagingPlan, StagingPlanView,
    TransactionState,
};
use crate::views::{group_views, opt, views, vres};
use crate::firewall::{
    firewall_stage, plan_matches, render_openwrt_firewall_stage_from_snapshot, OpenWrtFirewallStage,
    OpenWrtFirewallStageView, OpenWrtValidation,
};
use crate::firewall_error::{FirewallRenderError, FirewallRenderErrorView};
use crate::firewall_inventory::{
    firewall_snapshot, inspect_openwrt_firewall_inventory, OpenWrtFirewallInventorySnapshot,
    OpenWrtFirewallInventorySnapshotView,
};
use crate::firewall_model::{
    FirewallInventory, FirewallInventoryView, FirewallMutationPlan, FirewallMutationPlanView, FirewallObject,
};
use crate::platform::FirewallBackend;

verus! {

broadcast use group_views;

/// Why a transaction was refused or failed.
#[derive(Debug, Clone, PartialEq, Eq)]
pub enum OpenWrtExecutionError {
    InvalidTransaction,
    InvalidPlan,
    InvalidState,
    UnsafeRuntime,
    UnsafeConfig,
    MalformedInspection,
    StalePlan,
    StagedStateMismatch,
    SourceDrift,
    VerificationFailed,
    Command(FirewallCommandError),
    Render(FirewallRenderError),
    Io(String),
}

#[verifier::ext_equal]
pub enum OpenWrtExecutionErrorView {
    InvalidTransaction,
    InvalidPlan,
    InvalidState,
    UnsafeRuntime,
    UnsafeConfig,
    MalformedInspection,
    StalePlan,
    StagedStateMismatch,
    SourceDrift,
    VerificationFailed,
    Command(FirewallCommandErrorView),
    Render(FirewallRenderErrorView),
    Io(Seq<char>),
}

impl View for OpenWrtExecutionError {
    type V = OpenWrtExecutionErrorView;

    open spec fn view(&self) -> OpenWrtExecutionErrorView {
        match self {
            OpenWrtExecutionError::InvalidTransaction => OpenWrtExecutionErrorView::InvalidTransaction,
            OpenWrtExecutionError::InvalidPlan => OpenWrtExecutionErrorView::InvalidPlan,
            OpenWrtExecutionError::InvalidState => OpenWrtExecutionErrorView::InvalidState,
            OpenWrtExecutionError::UnsafeRuntime => OpenWrtExecutionErrorView::UnsafeRuntime,
            OpenWrtExecutionError::UnsafeConfig => OpenWrtExecutionErrorView::UnsafeConfig,
            OpenWrtExecutionError::MalformedInspection =>
                OpenWrtExecutionErrorView::MalformedInspection,
            OpenWrtExecutionError::StalePlan => OpenWrtExecutionErrorView::StalePlan,
            OpenWrtExecutionError::StagedStateMismatch => OpenWrtExecutionErrorView::StagedStateMismatch,
            OpenWrtExecutionError::SourceDrift => OpenWrtExecutionErrorView::SourceDrift,
            OpenWrtExecutionError::VerificationFailed => OpenWrtExecutionErrorView::VerificationFailed,
            OpenWrtExecutionError::Command(x) => OpenWrtExecutionErrorView::Command(x@),
            OpenWrtExecutionError::Render(x) => OpenWrtExecutionErrorView::Render(x@),
            OpenWrtExecutionError::Io(x) => OpenWrtExecutionErrorView::Io(x@),
        }
    }
}

impl OpenWrtExecutionErrorView {
    /// The text of the error.
    pub open spec fn message_text(self) -> Seq<char> {
        match self {
            OpenWrtExecutionErrorView::InvalidTransaction => "invalid OpenWrt firewall transaction"@,
            OpenWrtExecutionErrorView::InvalidPlan => "invalid executable firewall plan"@,
            OpenWrtExecutionErrorView::InvalidState =>
                "OpenWrt firewall transaction operation is out of order"@,
            OpenWrtExecutionErrorView::UnsafeRuntime => "OpenWrt firewall runtime directory is unsafe"@,
            OpenWrtExecutionErrorView::UnsafeConfig => "OpenWrt firewall configuration file is unsafe"@,
            OpenWrtExecutionErrorView::MalformedInspection =>
                "OpenWrt firewall inspection is malformed"@,
            OpenWrtExecutionErrorView::StalePlan => "typed firewall plan is stale"@,
            OpenWrtExecutionErrorView::StagedStateMismatch => "staged OpenWrt firewall differs from approved typed state"@,
            OpenWrtExecutionErrorView::SourceDrift =>
                "live OpenWrt firewall changed before activation"@,
            OpenWrtExecutionErrorView::VerificationFailed =>
                "applied OpenWrt firewall verification failed"@,
            OpenWrtExecutionErrorView::Command(x) =>
                "OpenWrt firewall command failed: "@ + x.message_text(),
            OpenWrtExecutionErrorView::Render(x) =>
                "OpenWrt firewall rendering failed: "@ + x.message_text(),
            OpenWrtExecutionErrorView::Io(x) => "OpenWrt firewall I/O failed: "@ + x,
        }
    }
}

impl OpenWrtExecutionError {
    /// The text of the error.
    pub fn message(&self) -> (r: String)
        ensures
            r@ == self@.message_text(),
    {
        match self {
            OpenWrtExecutionError::InvalidTransaction =>
                "invalid OpenWrt firewall transaction".to_owned(),
            OpenWrtExecutionError::InvalidPlan => "invalid executable firewall plan".to_owned(),
            OpenWrtExecutionError::InvalidState =>
                "OpenWrt firewall transaction operation is out of order".to_owned(),
            OpenWrtExecutionError::UnsafeRuntime =>
                "OpenWrt firewall runtime directory is unsafe".to_owned(),
            OpenWrtExecutionError::UnsafeConfig =>
                "OpenWrt firewall configuration file is unsafe".to_owned(),
            OpenWrtExecutionError::MalformedInspection =>
                "OpenWrt firewall inspection is malformed".to_owned(),
            OpenWrtExecutionError::StalePlan => "typed firewall plan is stale".to_owned(),
            OpenWrtExecutionError::StagedStateMismatch => "staged OpenWrt firewall differs from approved typed state".to_owned(),
            OpenWrtExecutionError::SourceDrift =>
                "live OpenWrt firewall changed before activation".to_owned(),
            OpenWrtExecutionError::VerificationFailed =>
                "applied OpenWrt firewall verification failed".to_owned(),
            OpenWrtExecutionError::Command(x) => {
                let mut r = "OpenWrt firewall command failed: ".to_owned();
                r.append(x.message().as_str());
                r
            },
            OpenWrtExecutionError::Render(x) => {
                let mut r = "OpenWrt firewall rendering failed: ".to_owned();
                r.append(x.message().as_str());
                r
            },
            OpenWrtExecutionError::Io(x) => {
                let mut r = "OpenWrt firewall I/O failed: ".to_owned();
                r.append(x.as_str());
                r
            },
        }
    }
}

/// One bounded transaction on the firewall package.
#[derive(Debug, PartialEq, Eq)]
pub struct OpenWrtFirewallTransaction {
    runtime_root: String,
    config_path: String,
    transaction_id: String,
    backend: FirewallBackend,
    plan: FirewallMutationPlan,
    require_root_owner: bool,
    state: TransactionState,
    pending: Pending,
    source_digest: Option<String>,
    source_uci: Option<Vec<u8>>,
    source_bytes: Option<Vec<u8>>,
    snapshot: Option<OpenWrtFirewallInventorySnapshot>,
    expected: Option<FirewallInventory>,
    stage: Option<OpenWrtFirewallStage>,
    staging_dir: Option<String>,
}

#[verifier::ext_equal]
pub struct OpenWrtFirewallTransactionView {
    pub runtime_root: Seq<char>,
    pub config_path: Seq<char>,
    pub transaction_id: Seq<char>,
    pub backend: FirewallBackend,
    pub plan: FirewallMutationPlanView,
    pub require_root_owner: bool,
    pub state: TransactionState,
    pub pending: Pending,
    pub source_digest: Option<Seq<char>>,
    pub source_uci: Option<Seq<u8>>,
    pub source_bytes: Option<Seq<u8>>,
    pub snapshot: Option<OpenWrtFirewallInventorySnapshotView>,
    pub expected: Option<FirewallInventoryView>,
    pub stage: Option<OpenWrtFirewallStageView>,
    pub staging_dir: Option<Seq<char>>,
}

impl View for OpenWrtFirewallTransaction {
    type V = OpenWrtFirewallTransactionView;

    closed spec fn view(&self) -> OpenWrtFirewallTransactionView {
        OpenWrtFirewallTransactionView {
            runtime_root: self.runtime_root@,
            config_path: self.config_path@,
            transaction_id: self.transaction_id@,
            backend: self.backend,
            plan: self.plan@,
            require_root_owner: self.require_root_owner,
            state: self.state,
            pending: self.pending,
            source_digest: opt(self.source_digest),
            source_uci: opt(self.source_uci),
            source_bytes: opt(self.source_bytes),
            snapshot: opt(self.snapshot),
            expected: opt(self.expected),
            stage: opt(self.stage),
            staging_dir: opt(self.staging_dir),
        }
    }
}

impl OpenWrtFirewallTransaction {
    /// How far the transaction is.
    pub fn state(&self) -> (r: TransactionState)
        ensures
            r == self@.state,
    {
        self.state
    }

    /// The plan of the transaction.
    pub fn plan(&self) -> (r: &FirewallMutationPlan)
        ensures
            r@ == self@.plan,
    {
        &self.plan
    }

    /// The directory below which the transaction stages.
    pub fn runtime_root(&self) -> (r: &str)
        ensures
            r@ == self@.runtime_root,
    {
        self.runtime_root.as_str()
    }

    /// The file of the package.
    pub fn config_path(&self) -> (r: &str)
        ensures
            r@ == self@.config_path,
    {
        self.config_path.as_str()
    }

    /// Whether files and directories have to belong to the superuser.
    pub fn require_root_owner(&self) -> (r: bool)
        ensures
            r == self@.require_root_owner,
    {
        self.require_root_owner
    }
}

impl OpenWrtFirewallTransaction {
    /// Creates a transaction on the live configuration, below the volatile directory.
    pub fn system(
        runtime_root: String,
        transaction_id: &str,
        backend: FirewallBackend,
        plan: FirewallMutationPlan,
        plan_valid: bool,
    ) -> (r: Result<OpenWrtFirewallTransaction, OpenWrtExecutionError>)
        ensures
            vres(r) == created(
                runtime_root@,
                "/etc/config/firewall"@,
                transaction_id@,
                backend,
                plan@,
                plan_valid,
                true,
            ),
    {
        OpenWrtFirewallTransaction::new(
            runtime_root,
            "/etc/config/firewall".to_owned(),
            transaction_id,
                backend,
            plan,
            plan_valid,
            true,
        )
    }

    /// Creates a transaction. The plan comes with the verdict of the planner on it.
    pub fn new(
        runtime_root: String,
        config_path: String,
        transaction_id: &str,
        backend: FirewallBackend,
        plan: FirewallMutationPlan,
        plan_valid: bool,
        require_root_owner: bool,
    ) -> (r: Result<OpenWrtFirewallTransaction, OpenWrtExecutionError>)
        ensures
            vres(r) == created(
                runtime_root@,
                config_path@,
                transaction_id@,
                backend,
                plan@,
                plan_valid,
                require_root_owner,
            ),
    {
        if !transaction_name(transaction_id) || !(backend == FirewallBackend::Fw3 || backend == FirewallBackend::Fw4) {
            return Err(OpenWrtExecutionError::InvalidTransaction);
        }
        if !plan_valid {
            return Err(OpenWrtExecutionError::InvalidPlan);
        }
        if require_root_owner && !safe_system_runtime_root(runtime_root.as_str()) {
            return Err(OpenWrtExecutionError::UnsafeRuntime);
        }
        Ok(
            OpenWrtFirewallTransaction {
                runtime_root,
                config_path,
                transaction_id: transaction_id.to_owned(),
                backend,
                plan,
                require_root_owner,
                state: TransactionState::New,
                pending: Pending::Nothing,
                source_digest: None,
                source_uci: None,
                source_bytes: None,
                snapshot: None,
                expected: None,
                stage: None,
                staging_dir: None,
            },
        )
    }

    /// Binds the plan to the live package.
    ///
    /// The reply is that to the command that shows the package. The verdicts are those of the object
    /// model on its sections, and the projection is the inventory that the planner foresees, unless it
    /// refuses the plan.
    pub fn reinspect(
        &mut self,
        config: &ConfigRead,
        reply: Result<FirewallCommandOutput, FirewallCommandError>,
        valid: &[bool],
        projected: Option<FirewallInventory>,
    ) -> (r: Result<(), OpenWrtExecutionError>)
        ensures
            match r {
                Ok(()) => reinspected(
                    old(self)@,
                    config@,
                    vres(reply),
                    valid@,
                    opt(projected),
                ) == Ok::<OpenWrtFirewallTransactionView, OpenWrtExecutionErrorView>(final(self)@),
                Err(e) => reinspected(
                    old(self)@,
                    config@,
                    vres(reply),
                    valid@,
                    opt(projected),
                ) == Err::<
                    OpenWrtFirewallTransactionView,
                    OpenWrtExecutionErrorView,
                >(e@) && final(self)@ == old(self)@,
            },
    {
        if self.state != TransactionState::New {
            return Err(OpenWrtExecutionError::InvalidState);
        }
        match check_config(config, self.require_root_owner) {
            Some(ConfigFault::Unsafe) => {
                return Err(OpenWrtExecutionError::UnsafeConfig);
            },
            Some(ConfigFault::Changed) => {
                return Err(OpenWrtExecutionError::SourceDrift);
            },
            None => {},
        }
        let output = match reply {
            Ok(o) => o,
            Err(e) => {
                return Err(OpenWrtExecutionError::Command(e));
            },
        };
        let snapshot = match inspect_output(&output, valid) {
            Ok(s) => s,
            Err(e) => {
                return Err(e);
            },
        };
        let expected = match projected {
            Some(p) => p,
            None => {
                return Err(OpenWrtExecutionError::StalePlan);
            },
        };
        let stage = match render_openwrt_firewall_stage_from_snapshot(&self.plan, &snapshot, self.backend) {
            Ok(s) => s,
            Err(e) => {
                return Err(OpenWrtExecutionError::Render(e));
            },
        };
        proof {
            lemma_bytes(output.stdout@);
        }
        self.source_digest = hex_digest(config.bytes.as_slice());
        self.source_bytes = Some(copy_bytes(config.bytes.as_slice()));
        self.source_uci = Some(output.stdout);
        self.snapshot = Some(snapshot);
        self.expected = Some(expected);
        self.stage = Some(stage);
        self.state = TransactionState::Inspected;
        Ok(())
    }

    /// Begins to stage: names the directory to create, the file to put there, and the commands to
    /// run then.
    pub fn begin_stage(&mut self) -> (r: Result<StagingPlan, OpenWrtExecutionError>)
        ensures
            match r {
                Ok(p) => staging_plan(old(self)@) == Ok::<
                    StagingPlanView,
                    OpenWrtExecutionErrorView,
                >(p@)
                   
                       && final(self)@ == (OpenWrtFirewallTransactionView { pending: Pending::Stage, ..old(self)@ }),
                Err(e) => staging_plan(old(self)@) == Err::<
                    StagingPlanView,
                    OpenWrtExecutionErrorView,
                >(e@)
                    && final(self)@ == old(self)@,
            },
    {
        if self.state != TransactionState::Inspected {
            return Err(OpenWrtExecutionError::InvalidState);
        }
        let plan = match (&self.source_bytes, &self.stage) {
            (Some(source), Some(stage)) => {
                let dir = staging_directory(
                    self.runtime_root.as_str(),
                    self.transaction_id.as_str(),
                );
                let mut invocations: Vec<Invocation> = Vec::new();
                invocations.push(
                    run_with(
                        FirewallCommand::UciBatch { staging_dir: dir.clone() },
                        stage.uci_batch.as_str(),
                    ),
                );
                invocations.push(run_bare(FirewallCommand::UciShowFirewallAt { staging_dir: dir.clone() }));
                assert(views(invocations@) =~= stage_commands(dir@, stage@.uci_batch));
                StagingPlan {
                    staging_root: staging_root(self.runtime_root.as_str()),
                    file: join_path(dir.as_str(), "firewall"),
                    staging_dir: dir,
                    contents: copy_bytes(source.as_slice()),
                    invocations,
                }
            },
            _ => {
                return Err(OpenWrtExecutionError::InvalidState);
            },
        };
        self.pending = Pending::Stage;
        Ok(plan)
    }

    /// Notes that the directory of the stage was created.
    pub fn stage_created(&mut self) -> (r: Result<(), OpenWrtExecutionError>)
        ensures
            match r {
                Ok(()) => old(self)@.pending == Pending::Stage
                    && final(self)@ == (OpenWrtFirewallTransactionView {
                    staging_dir: Some(
                        staging_dir_of(old(self)@.runtime_root, old(self)@.transaction_id),
                    ),
                    ..old(self)@
                }),
                Err(e) => old(self)@.pending != Pending::Stage && e@ == OpenWrtExecutionErrorView::InvalidState
                    && final(self)@ == old(self)@,
            },
    {
        if self.pending != Pending::Stage {
            return Err(OpenWrtExecutionError::InvalidState);
        }
        self.staging_dir = Some(
            staging_directory(self.runtime_root.as_str(), self.transaction_id.as_str()),
        );
        Ok(())
    }

    /// Checks what the commands of the stage replied: the staged package has to hold what the plan
    /// foresees.
    pub fn finish_stage(
        &mut self,
        replies: &Vec<Result<FirewallCommandOutput, FirewallCommandError>>,
        valid: &[bool],
    ) -> (r: Result<(), OpenWrtExecutionError>)
        ensures
            match r {
                Ok(()) => staged(old(self)@, reply_views(replies@), valid@) == Ok::<
                    OpenWrtFirewallTransactionView,
                    OpenWrtExecutionErrorView,
                >(final(self)@),
                Err(e) => staged(old(self)@, reply_views(replies@), valid@) == Err::<
                    OpenWrtFirewallTransactionView,
                    OpenWrtExecutionErrorView,
                >(e@) && final(self)@ == settled(old(self)@),
            },
    {
        let waited = self.pending == Pending::Stage;
        self.pending = Pending::Nothing;
        if self.state != TransactionState::Inspected || !waited || self.staging_dir.is_none() {
            return Err(OpenWrtExecutionError::InvalidState);
        }
        match failure(replies) {
            Some(e) => {
                return Err(OpenWrtExecutionError::Command(e));
            },
            None => {},
        }
        if replies.len() != 2 {
            return Err(OpenWrtExecutionError::InvalidState);
        }
        proof {
            lemma_no_failure(reply_views(replies@), 0, 1);
        }
        let output = match &replies[1] {
            Ok(o) => o,
            Err(_) => {
                return Err(OpenWrtExecutionError::InvalidState);
            },
        };
        let snapshot = match inspect_output(output, valid) {
            Ok(s) => s,
            Err(e) => {
                return Err(e);
            },
        };
        match &self.expected {
            None => {
                return Err(OpenWrtExecutionError::InvalidState);
            },
            Some(expected) => {
                if !inventory_equal(&snapshot.inventory().objects, &expected.objects) {
                    return Err(OpenWrtExecutionError::StagedStateMismatch);
                }
            },
        }
        self.state = TransactionState::Staged;
        Ok(())
    }

    /// Begins to validate: names the native checks to run on the stage.
    pub fn begin_validation(&mut self) -> (r: Result<Vec<Invocation>, OpenWrtExecutionError>)
        ensures
            match r {
                Ok(v) => validation_plan(old(self)@) == Ok::<
                    Seq<InvocationView>,
                    OpenWrtExecutionErrorView,
                >(
                    views(v@),
                )
                    && final(self)@ == (OpenWrtFirewallTransactionView { pending: Pending::Validation, ..old(self)@ }),
                Err(e) => validation_plan(old(self)@) == Err::<
                    Seq<InvocationView>,
                    OpenWrtExecutionErrorView,
                >(
                    e@,
                ) && final(self)@ == old(self)@,
            },
    {
        if self.state != TransactionState::Staged {
            return Err(OpenWrtExecutionError::InvalidState);
        }
        let list = match (&self.staging_dir, &self.stage) {
            (Some(dir), Some(stage)) => checks(&stage.validations, dir.as_str()),
            _ => {
                return Err(OpenWrtExecutionError::InvalidState);
            },
        };
        self.pending = Pending::Validation;
        Ok(list)
    }

    /// Checks what the native checks replied.
    pub fn finish_validation(
        &mut self,
        replies: &Vec<Result<FirewallCommandOutput, FirewallCommandError>>,
    ) -> (r: Result<(), OpenWrtExecutionError>)
        ensures
            match r {
                Ok(()) => validated(old(self)@, reply_views(replies@)) == Ok::<
                    OpenWrtFirewallTransactionView,
                    OpenWrtExecutionErrorView,
                >(final(self)@),
                Err(e) => validated(old(self)@, reply_views(replies@)) == Err::<
                    OpenWrtFirewallTransactionView,
                    OpenWrtExecutionErrorView,
                >(e@) && final(self)@ == settled(old(self)@),
            },
    {
        let waited = self.pending == Pending::Validation;
        self.pending = Pending::Nothing;
        if self.state != TransactionState::Staged || !waited {
            return Err(OpenWrtExecutionError::InvalidState);
        }
        match failure(replies) {
            Some(e) => {
                return Err(OpenWrtExecutionError::Command(e));
            },
            None => {},
        }
        match &self.stage {
            None => {
                return Err(OpenWrtExecutionError::InvalidState);
            },
            Some(stage) => {
                if replies.len() != stage.validations.len() {
                    return Err(OpenWrtExecutionError::InvalidState);
                }
            },
        }
        self.state = TransactionState::Validated;
        Ok(())
    }

    /// Runs the checks of the validation, and takes what they replied.
    pub fn validate_stage<E: FirewallCommandExecutor>(
        &mut self,
        executor: &E,
    ) -> (r: Result<(), OpenWrtExecutionError>)
        ensures
            match validation_plan(old(self)@) {
                Err(e) => r is Err && r->Err_0@ == e && final(self)@ == old(self)@,
                Ok(list) => {
                    let begun = OpenWrtFirewallTransactionView { pending: Pending::Validation, ..old(self)@ };
                    exists|replies: Seq<Result<FirewallCommandOutputView, FirewallCommandErrorView>>|
                        #[trigger] may_replies(executor, list, replies) && match r {
                            Ok(()) => validated(begun, replies) == Ok::<
                                OpenWrtFirewallTransactionView,
                                OpenWrtExecutionErrorView,
                            >(
                                final(self)@,
                            ),
                            Err(e) => validated(begun, replies) == Err::<
                                OpenWrtFirewallTransactionView,
                                OpenWrtExecutionErrorView,
                            >(e@)
                                && final(self)@ == settled(begun),
                        }
                },
            },
    {
        let list = match self.begin_validation() {
            Ok(list) => list,
            Err(e) => {
                return Err(e);
            },
        };
        let replies = run_all(executor, list.as_slice());
        assert(may_replies(executor, validation_plan(old(self)@)->Ok_0, reply_views(replies@)));
        self.finish_validation(&replies)
    }

    /// Checks that the transaction may be activated and that the live package is what it was, and hands
    /// the reply back.
    pub fn check_shown(&self, reply: Result<FirewallCommandOutput, FirewallCommandError>) -> (r: Result<
        FirewallCommandOutput,
        OpenWrtExecutionError,
    >)
        ensures
            match r {
                Ok(o) => reply == Ok::<FirewallCommandOutput, FirewallCommandError>(o) && shown_fault(
                    self@,
                    vres(reply),
                ) is None,
                Err(e) => shown_fault(self@, vres(reply)) == Some(e@),
            },
    {
        if self.state != TransactionState::Validated {
            return Err(OpenWrtExecutionError::InvalidState);
        }
        let output = match reply {
            Ok(o) => o,
            Err(e) => {
                return Err(OpenWrtExecutionError::Command(e));
            },
        };
        proof {
            lemma_bytes(output.stdout@);
        }
        let same_uci = match &self.source_uci {
            Some(b) => same_bytes(b.as_slice(), output.stdout.as_slice()),
            None => false,
        };
        if !same_uci {
            return Err(OpenWrtExecutionError::SourceDrift);
        }
        Ok(output)
    }

    /// Begins to activate, once an independent rollback is armed: the live package and its file have to be
    /// what they were. Names the file to install and the command to run then.
    pub fn begin_activation(
        &mut self,
        reply: Result<FirewallCommandOutput, FirewallCommandError>,
        config: &ConfigRead,
    ) -> (r: Result<InstallPlan, OpenWrtExecutionError>)
        ensures
            match r {
                Ok(p) => install_plan(old(self)@, vres(reply), config@) == Ok::<
                    InstallPlanView,
                    OpenWrtExecutionErrorView,
                >(p@)
                    && final(self)@ == (OpenWrtFirewallTransactionView { pending: Pending::Activation, ..old(self)@ }),
                Err(e) => install_plan(old(self)@, vres(reply), config@) == Err::<
                    InstallPlanView,
                    OpenWrtExecutionErrorView,
                >(e@) && final(self)@ == old(self)@,
            },
    {
        match self.check_shown(reply) {
            Ok(_) => {},
            Err(e) => {
                return Err(e);
            },
        }
        match check_config(config, self.require_root_owner) {
            Some(ConfigFault::Unsafe) => {
                return Err(OpenWrtExecutionError::UnsafeConfig);
            },
            Some(ConfigFault::Changed) => {
                return Err(OpenWrtExecutionError::SourceDrift);
            },
            None => {},
        }
        proof {
            lemma_config_digest(config@, self@.require_root_owner);
        }
        let fresh = hex_digest(config.bytes.as_slice());
        if !same_opt(&self.source_digest, &fresh) {
            return Err(OpenWrtExecutionError::SourceDrift);
        }
        let plan = match &self.staging_dir {
            None => {
                return Err(OpenWrtExecutionError::InvalidState);
            },
            Some(dir) => InstallPlan {
                staged: join_path(dir.as_str(), "firewall"),
                destination: self.config_path.clone(),
                temporary_name: temporary_name(self.transaction_id.as_str()),
                reload: run_bare(FirewallCommand::OpenWrtFirewallReload),
            },
        };
        self.pending = Pending::Activation;
        Ok(plan)
    }

    /// Checks what the reload replied, once the file was installed.
    pub fn finish_activation(
        &mut self,
        reload: Result<FirewallCommandOutput, FirewallCommandError>,
    ) -> (r: Result<(), OpenWrtExecutionError>)
        ensures
            match r {
                Ok(()) => activated(old(self)@, vres(reload)) == Ok::<
                    OpenWrtFirewallTransactionView,
                    OpenWrtExecutionErrorView,
                >(
                    final(self)@,
                ),
                Err(e) => activated(old(self)@, vres(reload)) == Err::<
                    OpenWrtFirewallTransactionView,
                    OpenWrtExecutionErrorView,
                >(e@)
                    && final(self)@ == settled(old(self)@),
            },
    {
        let waited = self.pending == Pending::Activation;
        self.pending = Pending::Nothing;
        if self.state != TransactionState::Validated || !waited {
            return Err(OpenWrtExecutionError::InvalidState);
        }
        match reload {
            Err(e) => Err(OpenWrtExecutionError::Command(e)),
            Ok(_) => {
                self.state = TransactionState::Activated;
                Ok(())
            },
        }
    }

    /// Checks that the live package holds what the plan foresees.
    pub fn verify(
        &mut self,
        reply: Result<FirewallCommandOutput, FirewallCommandError>,
        valid: &[bool],
    ) -> (r: Result<(), OpenWrtExecutionError>)
        ensures
            match r {
                Ok(()) => verified(old(self)@, vres(reply), valid@) == Ok::<
                    OpenWrtFirewallTransactionView,
                    OpenWrtExecutionErrorView,
                >(final(self)@),
                Err(e) => verified(old(self)@, vres(reply), valid@) == Err::<
                    OpenWrtFirewallTransactionView,
                    OpenWrtExecutionErrorView,
                >(e@) && final(self)@ == old(self)@,
            },
    {
        if self.state != TransactionState::Activated {
            return Err(OpenWrtExecutionError::InvalidState);
        }
        let output = match reply {
            Ok(o) => o,
            Err(e) => {
                return Err(OpenWrtExecutionError::Command(e));
            },
        };
        let snapshot = match inspect_output(&output, valid) {
            Ok(s) => s,
            Err(e) => {
                return Err(e);
            },
        };
        match &self.expected {
            None => {
                return Err(OpenWrtExecutionError::InvalidState);
            },
            Some(expected) => {
                if !inventory_equal(&snapshot.inventory().objects, &expected.objects) {
                    return Err(OpenWrtExecutionError::VerificationFailed);
                }
            },
        }
        self.state = TransactionState::Verified;
        Ok(())
    }

    /// Gives up the stage: the directory that is to be removed, where one was created.
    pub fn discard_stage(&mut self) -> (r: Option<String>)
        ensures
            opt(r) == old(self)@.staging_dir,
            final(self)@ == (OpenWrtFirewallTransactionView { staging_dir: None, ..old(self)@ }),
    {
        let r = copy_opt(&self.staging_dir);
        self.staging_dir = None;
        r
    }
}

/// The package that a command printed.
pub open spec fn inspected(output: FirewallCommandOutputView, valid: Seq<bool>) -> Result<
    OpenWrtFirewallInventorySnapshotView,
    OpenWrtExecutionErrorView,
> {
    match utf8_value(output.stdout) {
        None => Err(OpenWrtExecutionErrorView::MalformedInspection),
        Some(text) => match firewall_snapshot(text, valid) {
            Ok(s) => Ok(s),
            Err(e) => Err(OpenWrtExecutionErrorView::Render(e)),
        },
    }
}

fn inspect_output(
    output: &FirewallCommandOutput,
    valid: &[bool],
) -> (r: Result<OpenWrtFirewallInventorySnapshot, OpenWrtExecutionError>)
    ensures
        vres(r) == inspected(output@, valid@),
{
    proof {
        lemma_bytes(output.stdout@);
    }
    match utf8_text(copy_bytes(output.stdout.as_slice())) {
        None => Err(OpenWrtExecutionError::MalformedInspection),
        Some(text) => match inspect_openwrt_firewall_inventory(text.as_str(), valid) {
            Ok(s) => Ok(s),
            Err(e) => Err(OpenWrtExecutionError::Render(e)),
        },
    }
}

/// The transaction that a plan starts, or why it does not.
pub open spec fn created(
    runtime_root: Seq<char>,
    config_path: Seq<char>,
    transaction_id: Seq<char>,
    backend: FirewallBackend,
    plan: FirewallMutationPlanView,
    plan_valid: bool,
    require_root_owner: bool,
) -> Result<OpenWrtFirewallTransactionView, OpenWrtExecutionErrorView> {
    if !is_transaction_id(transaction_id) || !(backend == FirewallBackend::Fw3 || backend == FirewallBackend::Fw4) {
        Err(OpenWrtExecutionErrorView::InvalidTransaction)
    } else if !plan_valid {
        Err(OpenWrtExecutionErrorView::InvalidPlan)
    } else if require_root_owner && !is_system_root(runtime_root) {
        Err(OpenWrtExecutionErrorView::UnsafeRuntime)
    } else {
        Ok(
            OpenWrtFirewallTransactionView {
                runtime_root,
                config_path,
                transaction_id,
                backend,
                plan,
                require_root_owner,
                state: TransactionState::New,
                pending: Pending::Nothing,
                source_digest: None,
                source_uci: None,
                source_bytes: None,
                snapshot: None,
                expected: None,
                stage: None,
                staging_dir: None,
            },
        )
    }
}

/// A transaction that waits for no commands.
pub open spec fn settled(t: OpenWrtFirewallTransactionView) -> OpenWrtFirewallTransactionView {
    OpenWrtFirewallTransactionView { pending: Pending::Nothing, ..t }
}

/// What is wrong with the configuration file, as an error of the transaction.
pub open spec fn config_error(fault: ConfigFault) -> OpenWrtExecutionErrorView {
    match fault {
        ConfigFault::Unsafe => OpenWrtExecutionErrorView::UnsafeConfig,
        ConfigFault::Changed => OpenWrtExecutionErrorView::SourceDrift,
    }
}

/// The transaction once it was bound to the live package.
pub open spec fn reinspected(
    t: OpenWrtFirewallTransactionView,
    config: ConfigReadView,
    reply: Result<FirewallCommandOutputView, FirewallCommandErrorView>,
    valid: Seq<bool>,
    projected: Option<FirewallInventoryView>,
) -> Result<OpenWrtFirewallTransactionView, OpenWrtExecutionErrorView> {
    if t.state != TransactionState::New {
        Err(OpenWrtExecutionErrorView::InvalidState)
    } else if let Some(fault) = config_fault(config, t.require_root_owner) {
        Err(config_error(fault))
    } else {
        match reply {
            Err(e) => Err(OpenWrtExecutionErrorView::Command(e)),
            Ok(output) => match inspected(output, valid) {
                Err(e) => Err(e),
                Ok(snapshot) => match projected {
                    None => Err(OpenWrtExecutionErrorView::StalePlan),
                    Some(expected) => match (match plan_matches(
                        t.plan.changes,
                        snapshot.inventory.objects,
                    ) {
                        Err(e) => Err(e),
                        Ok(()) => firewall_stage(
                            t.plan.changes,
                            snapshot.bindings,
                            snapshot.occupied_sections,
                            t.backend,
                        ),
                    }) {
                        Err(e) => Err(OpenWrtExecutionErrorView::Render(e)),
                        Ok(stage) => Ok(
                            OpenWrtFirewallTransactionView {
                                source_digest: hex_digest_of(config.bytes),
                                source_bytes: Some(config.bytes),
                                source_uci: Some(output.stdout),
                                snapshot: Some(snapshot),
                                expected: Some(expected),
                                stage: Some(stage),
                                state: TransactionState::Inspected,
                                ..t
                            },
                        ),
                    },
                },
            },
        }
    }
}

/// The commands of a stage: apply the batch, and show what came of it.
pub open spec fn stage_commands(dir: Seq<char>, batch: Seq<char>) -> Seq<InvocationView> {
    seq![
        InvocationView {
            command: FirewallCommandView::UciBatch { staging_dir: dir },
            stdin: Some(encode_utf8(batch)),
        },
        bare_run(FirewallCommandView::UciShowFirewallAt { staging_dir: dir }),
    ]
}

/// What is to be staged: the live file, with the batch on it.
pub open spec fn staging_plan(
    t: OpenWrtFirewallTransactionView,
) -> Result<StagingPlanView, OpenWrtExecutionErrorView> {
    let dir = staging_dir_of(t.runtime_root, t.transaction_id);
    if t.state != TransactionState::Inspected {
        Err(OpenWrtExecutionErrorView::InvalidState)
    } else {
        match (t.source_bytes, t.stage) {
            (Some(contents), Some(stage)) => Ok(
                StagingPlanView {
                    staging_root: staging_root_of(t.runtime_root),
                    staging_dir: dir,
                    file: path_join(dir, "firewall"@),
                    contents,
                    invocations: stage_commands(dir, stage.uci_batch),
                },
            ),
            _ => Err(OpenWrtExecutionErrorView::InvalidState),
        }
    }
}

/// The transaction once its stage was found to hold what the plan foresees.
pub open spec fn staged(
    t: OpenWrtFirewallTransactionView,
    replies: Seq<Result<FirewallCommandOutputView, FirewallCommandErrorView>>,
    valid: Seq<bool>,
) -> Result<OpenWrtFirewallTransactionView, OpenWrtExecutionErrorView> {
    if t.state != TransactionState::Inspected || t.pending != Pending::Stage || t.staging_dir is None {
        Err(OpenWrtExecutionErrorView::InvalidState)
    } else if let Some(e) = first_failure(replies, 0) {
        Err(OpenWrtExecutionErrorView::Command(e))
    } else if replies.len() != 2 {
        Err(OpenWrtExecutionErrorView::InvalidState)
    } else {
        match inspected(replies[1]->Ok_0, valid) {
            Err(e) => Err(e),
            Ok(snapshot) => match t.expected {
                None => Err(OpenWrtExecutionErrorView::InvalidState),
                Some(expected) => if same_inventory::<FirewallObject>(
                    snapshot.inventory.objects,
                    expected.objects,
                ) {
                    Ok(
                        OpenWrtFirewallTransactionView {
                            state: TransactionState::Staged,
                            pending: Pending::Nothing,
                            ..t
                        },
                    )
                } else {
                    Err(OpenWrtExecutionErrorView::StagedStateMismatch)
                },
            },
        }
    }
}

/// A native check, as a command on a directory.
pub open spec fn check_command(v: OpenWrtValidation, dir: Seq<char>) -> FirewallCommandView {
    match v {
        OpenWrtValidation::Fw3PrintIpv4 => FirewallCommandView::Fw3PrintIpv4 { staging_dir: dir },
        OpenWrtValidation::Fw3PrintIpv6 => FirewallCommandView::Fw3PrintIpv6 { staging_dir: dir },
        OpenWrtValidation::Fw4Check => FirewallCommandView::Fw4Check { staging_dir: dir },
    }
}

/// The native checks, as commands on a directory.
pub open spec fn check_commands(validations: Seq<OpenWrtValidation>, dir: Seq<char>) -> Seq<
    InvocationView,
> {
    Seq::new(validations.len(), |i: int| bare_run(check_command(validations[i], dir)))
}

fn checks(validations: &Vec<OpenWrtValidation>, dir: &str) -> (r: Vec<Invocation>)
    ensures
        views(r@) == check_commands(validations@, dir@),
{
    let ghost want = check_commands(validations@, dir@);
    let mut r: Vec<Invocation> = Vec::new();
    let mut i: usize = 0;
    while i < validations.len()
        invariant
            i <= validations@.len(),
            want == check_commands(validations@, dir@),
            views(r@) =~= want.take(i as int),
        decreases validations@.len() - i,
    {
        let staging_dir = dir.to_owned();
        let command = match validations[i] {
            OpenWrtValidation::Fw3PrintIpv4 => FirewallCommand::Fw3PrintIpv4 { staging_dir },
            OpenWrtValidation::Fw3PrintIpv6 => FirewallCommand::Fw3PrintIpv6 { staging_dir },
            OpenWrtValidation::Fw4Check => FirewallCommand::Fw4Check { staging_dir },
        };
        r.push(run_bare(command));
        i = i + 1;
    }
    assert(want.take(i as int) =~= want);
    r
}

/// The native checks of a stage.
pub open spec fn validation_plan(
    t: OpenWrtFirewallTransactionView,
) -> Result<Seq<InvocationView>, OpenWrtExecutionErrorView> {
    if t.state != TransactionState::Staged {
        Err(OpenWrtExecutionErrorView::InvalidState)
    } else {
        match (t.staging_dir, t.stage) {
            (Some(dir), Some(stage)) => Ok(check_commands(stage.validations, dir)),
            _ => Err(OpenWrtExecutionErrorView::InvalidState),
        }
    }
}

/// The transaction once every native check succeeded.
pub open spec fn validated(
    t: OpenWrtFirewallTransactionView,
    replies: Seq<Result<FirewallCommandOutputView, FirewallCommandErrorView>>,
) -> Result<OpenWrtFirewallTransactionView, OpenWrtExecutionErrorView> {
    if t.state != TransactionState::Staged || t.pending != Pending::Validation {
        Err(OpenWrtExecutionErrorView::InvalidState)
    } else if let Some(e) = first_failure(replies, 0) {
        Err(OpenWrtExecutionErrorView::Command(e))
    } else if t.stage is None || replies.len() != t.stage->Some_0.validations.len() {
        Err(OpenWrtExecutionErrorView::InvalidState)
    } else {
        Ok(
            OpenWrtFirewallTransactionView {
                state: TransactionState::Validated,
                pending: Pending::Nothing,
                ..t
            },
        )
    }
}

/// What keeps the transaction from being activated, by its state and by what the live package shows.
pub open spec fn shown_fault(
    t: OpenWrtFirewallTransactionView,
    reply: Result<FirewallCommandOutputView, FirewallCommandErrorView>,
) -> Option<OpenWrtExecutionErrorView> {
    if t.state != TransactionState::Validated {
        Some(OpenWrtExecutionErrorView::InvalidState)
    } else {
        match reply {
            Err(e) => Some(OpenWrtExecutionErrorView::Command(e)),
            Ok(output) => if t.source_uci != Some(output.stdout) {
                Some(OpenWrtExecutionErrorView::SourceDrift)
            } else {
                None
            },
        }
    }
}

/// What is to be installed, where the live package and its file are what they were.
pub open spec fn install_plan(
    t: OpenWrtFirewallTransactionView,
    reply: Result<FirewallCommandOutputView, FirewallCommandErrorView>,
    config: ConfigReadView,
) -> Result<InstallPlanView, OpenWrtExecutionErrorView> {
    match shown_fault(t, reply) {
        Some(e) => Err(e),
        None => if let Some(fault) = config_fault(config, t.require_root_owner) {
            Err(config_error(fault))
        } else if t.source_digest != hex_digest_of(config.bytes) {
            Err(OpenWrtExecutionErrorView::SourceDrift)
        } else {
            match t.staging_dir {
                None => Err(OpenWrtExecutionErrorView::InvalidState),
                Some(dir) => Ok(
                    InstallPlanView {
                        staged: path_join(dir, "firewall"@),
                        destination: t.config_path,
                        temporary_name: temporary_name_of(t.transaction_id),
                        reload: bare_run(FirewallCommandView::OpenWrtFirewallReload),
                    },
                ),
            }
        },
    }
}

/// The transaction once the file was installed and the service reloaded.
pub open spec fn activated(
    t: OpenWrtFirewallTransactionView,
    reload: Result<FirewallCommandOutputView, FirewallCommandErrorView>,
) -> Result<OpenWrtFirewallTransactionView, OpenWrtExecutionErrorView> {
    if t.state != TransactionState::Validated || t.pending != Pending::Activation {
        Err(OpenWrtExecutionErrorView::InvalidState)
    } else {
        match reload {
            Err(e) => Err(OpenWrtExecutionErrorView::Command(e)),
            Ok(_) => Ok(
                OpenWrtFirewallTransactionView {
                    state: TransactionState::Activated,
                    pending: Pending::Nothing,
                    ..t
                },
            ),
        }
    }
}

/// The transaction once the live package was found to hold what the plan foresees.
pub open spec fn verified(
    t: OpenWrtFirewallTransactionView,
    reply: Result<FirewallCommandOutputView, FirewallCommandErrorView>,
    valid: Seq<bool>,
) -> Result<OpenWrtFirewallTransactionView, OpenWrtExecutionErrorView> {
    if t.state != TransactionState::Activated {
        Err(OpenWrtExecutionErrorView::InvalidState)
    } else {
        match reply {
            Err(e) => Err(OpenWrtExecutionErrorView::Command(e)),
            Ok(output) => match inspected(output, valid) {
                Err(e) => Err(e),
                Ok(snapshot) => match t.expected {
                    None => Err(OpenWrtExecutionErrorView::InvalidState),
                    Some(expected) => if same_inventory::<FirewallObject>(
                        snapshot.inventory.objects,
                        expected.objects,
                    ) {
                        Ok(OpenWrtFirewallTransactionView { state: TransactionState::Verified, ..t })
                    } else {
                        Err(OpenWrtExecutionErrorView::VerificationFailed)
                    },
                },
            },
        }
    }
}


/// A file is installed only over the configuration that was inspected: the command shows the same
/// package, and the file has the same digest.
pub proof fn law_install_requires_unchanged_source(
    t: OpenWrtFirewallTransactionView,
    reply: Result<FirewallCommandOutputView, FirewallCommandErrorView>,
    config: ConfigReadView,
)
    requires
        install_plan(t, reply, config) is Ok,
    ensures
        t.state == TransactionState::Validated,
        reply is Ok,
        t.source_uci == Some(reply->Ok_0.stdout),
        t.source_digest == hex_digest_of(config.bytes),
        hex_digest_of(config.bytes) is Some,
{
    lemma_config_digest(config, t.require_root_owner);
}

/// The steps of a transaction come in one order, and each is taken at most once.
pub proof fn law_steps_come_in_order(
    t: OpenWrtFirewallTransactionView,
    config: ConfigReadView,
    reply: Result<FirewallCommandOutputView, FirewallCommandErrorView>,
    replies: Seq<Result<FirewallCommandOutputView, FirewallCommandErrorView>>,
    valid: Seq<bool>,
    projected: Option<FirewallInventoryView>,
)
    ensures
        reinspected(t, config, reply, valid, projected) matches Ok(n) ==> t.state
            == TransactionState::New && n.state == TransactionState::Inspected,
        staged(t, replies, valid) matches Ok(n) ==> t.state == TransactionState::Inspected && n.state
            == TransactionState::Staged,
        validated(t, replies) matches Ok(n) ==> t.state == TransactionState::Staged && n.state
            == TransactionState::Validated,
        activated(t, reply) matches Ok(n) ==> t.state == TransactionState::Validated && n.state
            == TransactionState::Activated,
        verified(t, reply, valid) matches Ok(n) ==> t.state == TransactionState::Activated && n.state
            == TransactionState::Verified,
{
}

} // verus!
