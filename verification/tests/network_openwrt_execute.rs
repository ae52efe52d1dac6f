//! The transaction on the network package.

use std::cell::RefCell;

use platform_linux::change::{
    ChangeOperation, ConfigDomain, ObjectChecks, ObjectDiff, ObjectOwnership, ObjectReference,
    RiskLevel,
};
use platform_linux::firewall_command::{
    FirewallCommand, FirewallCommandError, FirewallCommandExecutor, FirewallCommandOutput,
};
use platform_linux::net::{IpAddr, IpNetwork};
use platform_linux::network_model::{
    NetworkAddressMode, NetworkInterfaceConfig, NetworkInventory, NetworkMutationPlan,
    NetworkObject, NetworkPlannedChange,
};
use platform_linux::network_openwrt_execute::{
    verify_openwrt_network_plan, OpenWrtNetworkExecutionError, OpenWrtNetworkTransaction,
};
use platform_linux::transaction::{ConfigRead, FileFacts, TransactionState};

/// The object model is content with everything.
const VALID: [bool; 64] = [true; 64];

const CONFIG: &[u8] = b"original-network\n";

fn config() -> ConfigRead {
    ConfigRead {
        facts: FileFacts {
            is_dir: false,
            is_file: true,
            is_symlink: false,
            length: CONFIG.len() as u64,
            uid: 1000,
            gid: 1000,
            mode: 0o600,
        },
        bytes: CONFIG.to_vec(),
    }
}

fn transaction() -> OpenWrtNetworkTransaction {
    OpenWrtNetworkTransaction::new(
        "/tmp/agent/runtime".to_owned(),
        "/etc/config/network".to_owned(),
        "change-1",
        execution_plan(),
        true,
        false,
    )
    .expect("transaction")
}

fn inspected() -> OpenWrtNetworkTransaction {
    let mut transaction = transaction();
    transaction
        .reinspect(&config(), Ok(output(&initial_uci())), &VALID, Some(projected()))
        .expect("inspect");
    transaction
}

fn staged() -> OpenWrtNetworkTransaction {
    let mut transaction = inspected();
    let plan = transaction.begin_stage().expect("stage");
    assert_eq!(plan.staging_root, "/tmp/agent/runtime/staging");
    assert_eq!(plan.file, "/tmp/agent/runtime/staging/change-1/network");
    assert_eq!(plan.contents, CONFIG);
    let dir = "/tmp/agent/runtime/staging/change-1".to_owned();
    assert_eq!(plan.invocations[0].command, FirewallCommand::UciBatch { staging_dir: dir.clone() });
    let batch = plan.invocations[0].stdin.as_ref().expect("batch");
    assert!(batch.ends_with(b"commit network\n"));
    assert_eq!(plan.invocations[1].command, FirewallCommand::UciShowNetworkAt { staging_dir: dir });
    transaction.stage_created().expect("created");
    transaction
        .finish_stage(&vec![Ok(output("")), Ok(output(&desired_uci()))], &VALID)
        .expect("staged");
    transaction
}

fn validated() -> OpenWrtNetworkTransaction {
    let mut transaction = staged();
    let checks = transaction.begin_validation().expect("checks");
    let dir = "/tmp/agent/runtime/staging/change-1".to_owned();
    assert_eq!(checks.len(), 1);
    assert_eq!(checks[0].command, FirewallCommand::UciExportNetworkAt { staging_dir: dir });
    transaction.finish_validation(&vec![Ok(output(""))]).expect("validate");
    transaction
}

#[test]
fn stages_validates_activates_and_verifies_typed_network_state() {
    let mut transaction = validated();
    let install =
        transaction.begin_activation(Ok(output(&initial_uci())), &config()).expect("install");
    assert_eq!(install.staged, "/tmp/agent/runtime/staging/change-1/network");
    assert_eq!(install.destination, "/etc/config/network");
    assert_eq!(install.temporary_name, ".mbed-agent-change-1.tmp");
    assert_eq!(install.reload.command, FirewallCommand::OpenWrtNetworkReload);
    transaction.finish_activation(Ok(output(""))).expect("activate");
    transaction.verify(Ok(output(&desired_uci())), &VALID).expect("verify");
    assert_eq!(transaction.state(), TransactionState::Verified);
    assert_eq!(
        transaction.discard_stage(),
        Some("/tmp/agent/runtime/staging/change-1".to_owned())
    );
}

#[test]
fn source_drift_blocks_network_install() {
    let mut transaction = validated();
    assert_eq!(
        transaction.check_shown(Ok(output("network.changed=interface\n"))),
        Err(OpenWrtNetworkExecutionError::SourceDrift)
    );
    assert!(transaction.check_shown(Ok(output(&initial_uci()))).is_ok());
    assert_eq!(
        transaction.begin_activation(Ok(output("network.changed=interface\n")), &config()),
        Err(OpenWrtNetworkExecutionError::SourceDrift)
    );
    let mut changed = config();
    changed.bytes[0] = b'X';
    assert_eq!(
        transaction.begin_activation(Ok(output(&initial_uci())), &changed),
        Err(OpenWrtNetworkExecutionError::SourceDrift)
    );
    assert_eq!(transaction.finish_activation(Ok(output(""))), Err(OpenWrtNetworkExecutionError::InvalidState));
    assert_eq!(transaction.state(), TransactionState::Validated);
}

#[test]
fn network_openwrt_execute_staged_typed_mismatch_fails_before_validation() {
    let mut transaction = inspected();
    transaction.begin_stage().expect("stage");
    transaction.stage_created().expect("created");
    assert_eq!(
        transaction.finish_stage(&vec![Ok(output("")), Ok(output(&initial_uci()))], &VALID),
        Err(OpenWrtNetworkExecutionError::StagedStateMismatch)
    );
    assert_eq!(transaction.begin_validation(), Err(OpenWrtNetworkExecutionError::InvalidState));
}

#[test]
fn network_inspection_refuses_unsafe_input() {
    let mut unread = transaction();
    let mut linked = config();
    linked.facts.is_symlink = true;
    assert_eq!(
        unread.reinspect(&linked, Ok(output(&initial_uci())), &VALID, Some(projected())),
        Err(OpenWrtNetworkExecutionError::UnsafeConfig)
    );
    let mut shorter = config();
    shorter.bytes.pop();
    assert_eq!(
        unread.reinspect(&shorter, Ok(output(&initial_uci())), &VALID, Some(projected())),
        Err(OpenWrtNetworkExecutionError::SourceDrift)
    );
    assert_eq!(
        unread.reinspect(&config(), Err(FirewallCommandError::TimedOut), &VALID, Some(projected())),
        Err(OpenWrtNetworkExecutionError::Command(FirewallCommandError::TimedOut))
    );
    assert_eq!(
        unread.reinspect(&config(), Ok(output(&initial_uci())), &VALID, None),
        Err(OpenWrtNetworkExecutionError::StalePlan)
    );
    let mut binary = output("");
    binary.stdout = vec![0xff];
    assert_eq!(
        unread.reinspect(&config(), Ok(binary), &VALID, Some(projected())),
        Err(OpenWrtNetworkExecutionError::MalformedInspection)
    );
    assert_eq!(unread.state(), TransactionState::New);
    assert!(matches!(
        OpenWrtNetworkTransaction::system(
            "/etc".to_owned(),
            "change-1",
            execution_plan(),
            true,
        ),
        Err(OpenWrtNetworkExecutionError::UnsafeRuntime)
    ));
    assert!(matches!(
        OpenWrtNetworkTransaction::system(
            "/tmp/agent".to_owned(),
            "change 1",
            execution_plan(),
            true,
        ),
        Err(OpenWrtNetworkExecutionError::InvalidTransaction)
    ));
}

fn initial_uci() -> String {
    String::new()
}

fn desired_uci() -> String {
    [
        "network.guest=interface",
        "network.guest.mbed_managed='1'",
        "network.guest.mbed_id='guest'",
        "network.guest.proto='static'",
        "network.guest.device='br-guest'",
        "network.guest.disabled='0'",
        "network.guest.mtu='1500'",
        "network.guest.ipaddr='192.0.2.1/24'",
        "",
    ]
    .join("\n")
}

fn projected() -> NetworkInventory {
    NetworkInventory {
        objects: execution_plan().changes.into_iter().filter_map(|change| change.after).collect(),
    }
}

fn execution_plan() -> NetworkMutationPlan {
    plan_network_mutations(
        &NetworkInventory { objects: vec![] },
        &[NetworkMutation::Create(NetworkObject::Interface(NetworkInterfaceConfig {
            id: "guest".into(),
            ownership: ObjectOwnership::AgentOwned,
            enabled: true,
            device: "br-guest".into(),
            ipv4_mode: NetworkAddressMode::Static,
            ipv6_mode: NetworkAddressMode::Disabled,
            addresses: vec![IpNetwork { address: IpAddr::v4(192, 0, 2, 1), prefix_len: 24 }],
            mtu: Some(1500),
            mac_override: None,
            peerdns: true,
            dns_servers: Vec::new(),
            dns_search: Vec::new(),
            dhcp_client_id: None,
            dhcp_vendor_id: None,
            dhcp_hostname: None,
            dhcp_request_options: Vec::new(),
            dhcp_no_release: false,
            dhcp_server: None,
        }))],
    )
    .expect("typed plan")
}

fn output(value: &str) -> FirewallCommandOutput {
    FirewallCommandOutput {
        stdout: value.as_bytes().to_vec(),
        stderr: Vec::new(),
        truncated: false,
        duration_ms: 1,
    }
}

#[test]
fn a_network_plan_is_verified_against_the_live_package() {
    let reply = || Ok(output(&desired_uci()));
    assert_eq!(verify_openwrt_network_plan(true, reply(), &VALID, true), Ok(()));
    assert_eq!(
        verify_openwrt_network_plan(false, reply(), &VALID, true),
        Err(OpenWrtNetworkExecutionError::InvalidPlan)
    );
    assert_eq!(
        verify_openwrt_network_plan(true, reply(), &VALID, false),
        Err(OpenWrtNetworkExecutionError::VerificationFailed)
    );
}

fn sha256_hex(text: &str) -> String {
    let digest = ring::digest::digest(&ring::digest::SHA256, text.as_bytes());
    digest.as_ref().iter().map(|byte| format!("{byte:02x}")).collect()
}

/// The changes that a planner takes.
#[allow(dead_code)]
enum NetworkMutation {
    Create(NetworkObject),
    Update { expected_digest: String, desired: NetworkObject },
    Move { expected_digest: String, desired: NetworkObject },
    Delete { kind: String, id: String, expected_digest: String },
}

fn network_object_digest(object: &NetworkObject) -> Option<String> {
    Some(sha256_hex(&format!("{object:?}")))
}

fn checks(object: &Option<NetworkObject>) -> ObjectChecks {
    ObjectChecks { valid: true, digest: object.as_ref().and_then(network_object_digest) }
}

/// Plans changes against an inventory, with the object model content with every object.
fn plan_network_mutations(inventory: &NetworkInventory, mutations: &[NetworkMutation]) -> Option<NetworkMutationPlan> {
    let find = |kind: &str, id: &str| {
        inventory
            .objects
            .iter()
            .find(|object| object.kind() == kind && object.id() == id)
            .cloned()
    };
    let mut changes = Vec::new();
    for mutation in mutations {
        let (operation, before, after) = match mutation {
            NetworkMutation::Create(object) => (ChangeOperation::Create, None, Some(object.clone())),
            NetworkMutation::Update { expected_digest, desired } => {
                let before = find(desired.kind(), desired.id())?;
                assert_eq!(network_object_digest(&before).as_ref(), Some(expected_digest));
                (ChangeOperation::Update, Some(before), Some(desired.clone()))
            }
            NetworkMutation::Move { expected_digest, desired } => {
                let before = find(desired.kind(), desired.id())?;
                assert_eq!(network_object_digest(&before).as_ref(), Some(expected_digest));
                (ChangeOperation::Move, Some(before), Some(desired.clone()))
            }
            NetworkMutation::Delete { kind, id, expected_digest } => {
                let before = find(kind, id)?;
                assert_eq!(network_object_digest(&before).as_ref(), Some(expected_digest));
                (ChangeOperation::Delete, Some(before), None)
            }
        };
        let before_checks = checks(&before);
        let after_checks = checks(&after);
        let subject = after.as_ref().or(before.as_ref())?;
        let diff = ObjectDiff {
            operation,
            object: ObjectReference {
                domain: ConfigDomain::Network,
                kind: subject.kind().to_owned(),
                id: subject.id().to_owned(),
                ownership: subject.ownership(),
                expected_version: before_checks.digest.clone(),
            },
            before_digest: before_checks.digest.clone(),
            after_digest: after_checks.digest.clone(),
        };
        changes.push(NetworkPlannedChange { before, after, diff, before_checks, after_checks });
    }
    Some(NetworkMutationPlan { risk: RiskLevel::R2, changes })
}

/// Answers commands by a rule, and notes them.
struct Answers<F> {
    rule: F,
    seen: RefCell<Vec<FirewallCommand>>,
}

impl<F> Answers<F> {
    fn new(rule: F) -> Self {
        Self { rule, seen: RefCell::new(Vec::new()) }
    }
}

impl<F> FirewallCommandExecutor for Answers<F>
where
    F: Fn(&FirewallCommand) -> Result<FirewallCommandOutput, FirewallCommandError>,
{
    fn execute(
        &self,
        operation: &FirewallCommand,
        _stdin: Option<&[u8]>,
    ) -> Result<FirewallCommandOutput, FirewallCommandError> {
        self.seen.borrow_mut().push(operation.clone());
        (self.rule)(operation)
    }
}

#[test]
fn network_executor_runs_the_native_checks() {
    let mut transaction = staged();
    let refusing =
        Answers::new(|_: &FirewallCommand| Err(FirewallCommandError::Unsuccessful));
    assert_eq!(
        transaction.validate_stage(&refusing),
        Err(OpenWrtNetworkExecutionError::Command(FirewallCommandError::Unsuccessful))
    );
    assert_eq!(transaction.state(), TransactionState::Staged);
    let content = Answers::new(|_: &FirewallCommand| Ok(output("")));
    transaction.validate_stage(&content).expect("validate");
    assert_eq!(transaction.state(), TransactionState::Validated);
    let seen = content.seen.into_inner();
    assert_eq!(seen.len(), 1);
    assert!(matches!(&seen[0], FirewallCommand::UciExportNetworkAt { .. }));
}
