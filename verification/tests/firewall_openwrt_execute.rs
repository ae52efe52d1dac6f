//! The transaction on the firewall package.

use std::cell::RefCell;

use platform_linux::change::{
    ChangeOperation, ConfigDomain, ObjectChecks, ObjectDiff, ObjectOwnership, ObjectReference,
    RiskLevel,
};
use platform_linux::firewall_command::{
    FirewallCommand, FirewallCommandError, FirewallCommandExecutor, FirewallCommandOutput,
};
use platform_linux::firewall_model::{
    FirewallInventory, FirewallMutationPlan, FirewallObject, FirewallPlannedChange, FirewallVerdict,
    FirewallZone,
};
use platform_linux::firewall_openwrt_execute::{OpenWrtExecutionError, OpenWrtFirewallTransaction};
use platform_linux::platform::FirewallBackend;
use platform_linux::transaction::{ConfigRead, FileFacts, TransactionState};

/// The object model is content with everything.
const VALID: [bool; 64] = [true; 64];

const CONFIG: &[u8] = b"original-config\n";

fn config() -> ConfigRead {
    ConfigRead {
        facts: FileFacts {
            is_dir: false,
            is_file: true,
            is_symlink: false,
            length: CONFIG.len() as u64,
            uid: 1000,
            gid: 1000,
            mode: 0o600,
        },
        bytes: CONFIG.to_vec(),
    }
}

fn transaction() -> OpenWrtFirewallTransaction {
    OpenWrtFirewallTransaction::new(
        "/tmp/agent/runtime".to_owned(),
        "/etc/config/firewall".to_owned(),
        "change-1",
        FirewallBackend::Fw4,
        execution_plan(),
        true,
        false,
    )
    .expect("transaction")
}

fn inspected() -> OpenWrtFirewallTransaction {
    let mut transaction = transaction();
    transaction
        .reinspect(&config(), Ok(output(&initial_uci())), &VALID, Some(projected()))
        .expect("inspect");
    transaction
}

fn staged() -> OpenWrtFirewallTransaction {
    let mut transaction = inspected();
    let plan = transaction.begin_stage().expect("stage");
    assert_eq!(plan.staging_root, "/tmp/agent/runtime/staging");
    assert_eq!(plan.file, "/tmp/agent/runtime/staging/change-1/firewall");
    assert_eq!(plan.contents, CONFIG);
    let dir = "/tmp/agent/runtime/staging/change-1".to_owned();
    assert_eq!(plan.invocations[0].command, FirewallCommand::UciBatch { staging_dir: dir.clone() });
    let batch = plan.invocations[0].stdin.as_ref().expect("batch");
    assert!(batch.ends_with(b"commit firewall\n"));
    assert_eq!(plan.invocations[1].command, FirewallCommand::UciShowFirewallAt { staging_dir: dir });
    transaction.stage_created().expect("created");
    transaction
        .finish_stage(&vec![Ok(output("")), Ok(output(&desired_uci()))], &VALID)
        .expect("staged");
    transaction
}

fn validated() -> OpenWrtFirewallTransaction {
    let mut transaction = staged();
    let checks = transaction.begin_validation().expect("checks");
    let dir = "/tmp/agent/runtime/staging/change-1".to_owned();
    assert_eq!(checks.len(), 1);
    assert_eq!(checks[0].command, FirewallCommand::Fw4Check { staging_dir: dir });
    transaction.finish_validation(&vec![Ok(output(""))]).expect("validate");
    transaction
}

#[test]
fn stages_validates_activates_and_verifies_typed_state() {
    let mut transaction = validated();
    let install =
        transaction.begin_activation(Ok(output(&initial_uci())), &config()).expect("install");
    assert_eq!(install.staged, "/tmp/agent/runtime/staging/change-1/firewall");
    assert_eq!(install.destination, "/etc/config/firewall");
    assert_eq!(install.temporary_name, ".mbed-agent-change-1.tmp");
    assert_eq!(install.reload.command, FirewallCommand::OpenWrtFirewallReload);
    transaction.finish_activation(Ok(output(""))).expect("activate");
    transaction.verify(Ok(output(&desired_uci())), &VALID).expect("verify");
    assert_eq!(transaction.state(), TransactionState::Verified);
    assert_eq!(
        transaction.discard_stage(),
        Some("/tmp/agent/runtime/staging/change-1".to_owned())
    );
}

#[test]
fn source_drift_blocks_install_after_native_validation() {
    let mut transaction = validated();
    assert_eq!(
        transaction.check_shown(Ok(output("firewall.changed=rule\n"))),
        Err(OpenWrtExecutionError::SourceDrift)
    );
    assert!(transaction.check_shown(Ok(output(&initial_uci()))).is_ok());
    assert_eq!(
        transaction.begin_activation(Ok(output("firewall.changed=rule\n")), &config()),
        Err(OpenWrtExecutionError::SourceDrift)
    );
    let mut changed = config();
    changed.bytes[0] = b'X';
    assert_eq!(
        transaction.begin_activation(Ok(output(&initial_uci())), &changed),
        Err(OpenWrtExecutionError::SourceDrift)
    );
    assert_eq!(transaction.finish_activation(Ok(output(""))), Err(OpenWrtExecutionError::InvalidState));
    assert_eq!(transaction.state(), TransactionState::Validated);
}

#[test]
fn firewall_stage_must_hold_what_was_planned() {
    let mut transaction = inspected();
    transaction.begin_stage().expect("stage");
    transaction.stage_created().expect("created");
    assert_eq!(
        transaction.finish_stage(&vec![Ok(output("")), Ok(output(&initial_uci()))], &VALID),
        Err(OpenWrtExecutionError::StagedStateMismatch)
    );
    assert_eq!(transaction.begin_validation(), Err(OpenWrtExecutionError::InvalidState));
}

#[test]
fn firewall_inspection_refuses_unsafe_input() {
    let mut unread = transaction();
    let mut linked = config();
    linked.facts.is_symlink = true;
    assert_eq!(
        unread.reinspect(&linked, Ok(output(&initial_uci())), &VALID, Some(projected())),
        Err(OpenWrtExecutionError::UnsafeConfig)
    );
    let mut shorter = config();
    shorter.bytes.pop();
    assert_eq!(
        unread.reinspect(&shorter, Ok(output(&initial_uci())), &VALID, Some(projected())),
        Err(OpenWrtExecutionError::SourceDrift)
    );
    assert_eq!(
        unread.reinspect(&config(), Err(FirewallCommandError::TimedOut), &VALID, Some(projected())),
        Err(OpenWrtExecutionError::Command(FirewallCommandError::TimedOut))
    );
    assert_eq!(
        unread.reinspect(&config(), Ok(output(&initial_uci())), &VALID, None),
        Err(OpenWrtExecutionError::StalePlan)
    );
    let mut binary = output("");
    binary.stdout = vec![0xff];
    assert_eq!(
        unread.reinspect(&config(), Ok(binary), &VALID, Some(projected())),
        Err(OpenWrtExecutionError::MalformedInspection)
    );
    assert_eq!(unread.state(), TransactionState::New);
    assert!(matches!(
        OpenWrtFirewallTransaction::system(
            "/etc".to_owned(),
            "change-1",
            FirewallBackend::Fw4,
        execution_plan(),
            true,
        ),
        Err(OpenWrtExecutionError::UnsafeRuntime)
    ));
    assert!(matches!(
        OpenWrtFirewallTransaction::system(
            "/tmp/agent".to_owned(),
            "change 1",
            FirewallBackend::Fw4,
        execution_plan(),
            true,
        ),
        Err(OpenWrtExecutionError::InvalidTransaction)
    ));
}

fn initial_uci() -> String {
    [
        "firewall.@defaults[0]=defaults",
        "firewall.@defaults[0].input='ACCEPT'",
        "firewall.@defaults[0].output='ACCEPT'",
        "firewall.@defaults[0].forward='REJECT'",
        "",
    ]
    .join("\n")
}

fn desired_uci() -> String {
    format!(
        "{}firewall.mbed_z_0123456789abcdef=zone\n\
         firewall.mbed_z_0123456789abcdef.name='guest'\n\
         firewall.mbed_z_0123456789abcdef.network='br-guest'\n\
         firewall.mbed_z_0123456789abcdef.input='DROP'\n\
         firewall.mbed_z_0123456789abcdef.output='ACCEPT'\n\
         firewall.mbed_z_0123456789abcdef.forward='DROP'\n",
        initial_uci()
    )
}

fn projected() -> FirewallInventory {
    FirewallInventory {
        objects: execution_plan().changes.into_iter().filter_map(|change| change.after).collect(),
    }
}

fn execution_plan() -> FirewallMutationPlan {
    plan_firewall_mutations(
        &FirewallInventory { objects: Vec::new() },
        &[FirewallMutation::Create(FirewallObject::Zone(FirewallZone {
            id: "guest".into(),
            ownership: ObjectOwnership::AgentOwned,
            enabled: true,
            networks: vec!["br-guest".into()],
            input: FirewallVerdict::Drop,
            output: FirewallVerdict::Accept,
            forward: FirewallVerdict::Drop,
            masquerade: false,
            mtu_fix: false,
        }))],
    )
    .expect("plan")
}

fn output(value: &str) -> FirewallCommandOutput {
    FirewallCommandOutput {
        stdout: value.as_bytes().to_vec(),
        stderr: Vec::new(),
        truncated: false,
        duration_ms: 1,
    }
}

fn sha256_hex(text: &str) -> String {
    let digest = ring::digest::digest(&ring::digest::SHA256, text.as_bytes());
    digest.as_ref().iter().map(|byte| format!("{byte:02x}")).collect()
}

/// The changes that a planner takes.
#[allow(dead_code)]
enum FirewallMutation {
    Create(FirewallObject),
    Update { expected_digest: String, desired: FirewallObject },
    Move { expected_digest: String, desired: FirewallObject },
    Delete { kind: String, id: String, expected_digest: String },
}

fn firewall_object_digest(object: &FirewallObject) -> Option<String> {
    Some(sha256_hex(&format!("{object:?}")))
}

fn checks(object: &Option<FirewallObject>) -> ObjectChecks {
    ObjectChecks { valid: true, digest: object.as_ref().and_then(firewall_object_digest) }
}

/// Plans changes against an inventory, with the object model content with every object.
fn plan_firewall_mutations(inventory: &FirewallInventory, mutations: &[FirewallMutation]) -> Option<FirewallMutationPlan> {
    let find = |kind: &str, id: &str| {
        inventory
            .objects
            .iter()
            .find(|object| object.kind() == kind && object.id() == id)
            .cloned()
    };
    let mut changes = Vec::new();
    for mutation in mutations {
        let (operation, before, after) = match mutation {
            FirewallMutation::Create(object) => (ChangeOperation::Create, None, Some(object.clone())),
            FirewallMutation::Update { expected_digest, desired } => {
                let before = find(desired.kind(), desired.id())?;
                assert_eq!(firewall_object_digest(&before).as_ref(), Some(expected_digest));
                (ChangeOperation::Update, Some(before), Some(desired.clone()))
            }
            FirewallMutation::Move { expected_digest, desired } => {
                let before = find(desired.kind(), desired.id())?;
                assert_eq!(firewall_object_digest(&before).as_ref(), Some(expected_digest));
                (ChangeOperation::Move, Some(before), Some(desired.clone()))
            }
            FirewallMutation::Delete { kind, id, expected_digest } => {
                let before = find(kind, id)?;
                assert_eq!(firewall_object_digest(&before).as_ref(), Some(expected_digest));
                (ChangeOperation::Delete, Some(before), None)
            }
        };
        let before_checks = checks(&before);
        let after_checks = checks(&after);
        let subject = after.as_ref().or(before.as_ref())?;
        let diff = ObjectDiff {
            operation,
            object: ObjectReference {
                domain: ConfigDomain::Firewall,
                kind: subject.kind().to_owned(),
                id: subject.id().to_owned(),
                ownership: subject.ownership(),
                expected_version: before_checks.digest.clone(),
            },
            before_digest: before_checks.digest.clone(),
            after_digest: after_checks.digest.clone(),
        };
        changes.push(FirewallPlannedChange { before, after, diff, before_checks, after_checks });
    }
    Some(FirewallMutationPlan { risk: RiskLevel::R2, changes })
}

/// Answers commands by a rule, and notes them.
struct Answers<F> {
    rule: F,
    seen: RefCell<Vec<FirewallCommand>>,
}

impl<F> Answers<F> {
    fn new(rule: F) -> Self {
        Self { rule, seen: RefCell::new(Vec::new()) }
    }
}

impl<F> FirewallCommandExecutor for Answers<F>
where
    F: Fn(&FirewallCommand) -> Result<FirewallCommandOutput, FirewallCommandError>,
{
    fn execute(
        &self,
        operation: &FirewallCommand,
        _stdin: Option<&[u8]>,
    ) -> Result<FirewallCommandOutput, FirewallCommandError> {
        self.seen.borrow_mut().push(operation.clone());
        (self.rule)(operation)
    }
}

#[test]
fn firewall_executor_runs_the_native_checks() {
    let mut transaction = staged();
    let refusing =
        Answers::new(|_: &FirewallCommand| Err(FirewallCommandError::Unsuccessful));
    assert_eq!(
        transaction.validate_stage(&refusing),
        Err(OpenWrtExecutionError::Command(FirewallCommandError::Unsuccessful))
    );
    assert_eq!(transaction.state(), TransactionState::Staged);
    let content = Answers::new(|_: &FirewallCommand| Ok(output("")));
    transaction.validate_stage(&content).expect("validate");
    assert_eq!(transaction.state(), TransactionState::Validated);
    let seen = content.seen.into_inner();
    assert_eq!(seen.len(), 1);
    assert!(matches!(&seen[0], FirewallCommand::Fw4Check { .. }));
}
