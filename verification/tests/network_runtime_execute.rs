//! The transaction on volatile routes.

use std::cell::RefCell;

use platform_linux::change::{
    ChangeOperation, ConfigDomain, ObjectChecks, ObjectDiff, ObjectOwnership, ObjectReference,
    RiskLevel,
};
use platform_linux::firewall_command::{
    FirewallCommand, FirewallCommandError, FirewallCommandExecutor, FirewallCommandOutput,
};
use platform_linux::net::{IpAddr, IpNetwork};
use platform_linux::network_model::{
    NetworkInventory, NetworkMutationPlan, NetworkObject, NetworkPlannedChange, NetworkRoute,
    NetworkRouteType,
};
use platform_linux::network_reconcile::{RuntimeCanonicalRecord, RuntimeRouteCanonicalState};
use platform_linux::network_runtime::RuntimeNetworkInventoryError;
use platform_linux::network_runtime_execute::{
    GenericRuntimeRouteExecutionError, GenericRuntimeRouteTransaction, RouteStagingPlan,
};
use platform_linux::transaction::TransactionState;

/// The object model is content with everything.
const VALID: [bool; 64] = [true; 64];

const APPLIED: &str = r#"[{"dst":"default","gateway":"192.0.2.1","dev":"eth0","table":100,"metric":20,"protocol":186}]"#;

type Reply = Result<FirewallCommandOutput, FirewallCommandError>;

/// What the commands of an inspection print.
fn inspect(transaction: &GenericRuntimeRouteTransaction, applied: bool) -> Vec<Reply> {
    transaction
        .inspection_commands()
        .iter()
        .map(|invocation| match invocation.command {
            FirewallCommand::IpJsonRoute if applied => Ok(output(APPLIED)),
            FirewallCommand::IpJsonRoute | FirewallCommand::IpJsonRule => Ok(output("[]")),
            _ => Err(FirewallCommandError::UnexpectedInput),
        })
        .collect()
}

fn projected() -> NetworkInventory {
    NetworkInventory {
        objects: execution_plan().changes.into_iter().filter_map(|change| change.after).collect(),
    }
}

fn canonical() -> RuntimeRouteCanonicalState {
    RuntimeRouteCanonicalState {
        schema_version: 1,
        boot_id: "boot-1".into(),
        inventory: projected(),
    }
}

fn inspected(id: &str) -> GenericRuntimeRouteTransaction {
    let mut transaction = GenericRuntimeRouteTransaction::new(
        "/tmp/agent".to_owned(),
        id,
        "boot-1",
        None,
        execution_plan(),
        true,
        false,
    )
    .expect("transaction");
    assert!(!transaction.execution_requires_full_inventory());
    let replies = inspect(&transaction, false);
    let encoded = format!("{:?}", canonical()).into_bytes();
    transaction
        .reinspect(&replies, &VALID, &[], Some(&projected()), &VALID, Some(encoded))
        .expect("reinspect");
    transaction
}

fn staged(id: &str) -> (GenericRuntimeRouteTransaction, RouteStagingPlan) {
    let mut transaction = inspected(id);
    let plan = transaction.begin_stage().expect("stage");
    transaction.stage_created().expect("created");
    transaction.finish_stage().expect("staged");
    (transaction, plan)
}

#[test]
fn stages_activates_and_verifies_runtime_route() {
    let (mut transaction, plan) = staged("change-route-1");
    assert_eq!(plan.staging_dir, "/tmp/agent/staging/change-route-1");
    assert!(plan.rollback_batch.contains("route del default"));
    assert_eq!(
        transaction.rollback_batch(),
        Ok("/tmp/agent/staging/change-route-1/rollback.ipbatch")
    );
    transaction
        .validate_stage(plan.apply_batch.as_bytes(), plan.rollback_batch.as_bytes())
        .expect("validate");
    let replies = inspect(&transaction, false);
    let apply = transaction.begin_activation(&replies, &VALID, &[]).expect("activate");
    assert_eq!(
        apply.command,
        FirewallCommand::IpBatch {
            batch_file: "/tmp/agent/staging/change-route-1/apply.ipbatch".to_owned(),
            continue_on_error: false,
        }
    );
    assert!(plan.apply_batch.contains("route add default"));
    assert!(plan.apply_batch.contains("proto 186"));
    transaction.finish_activation(Ok(output(""))).expect("activated");
    let replies = inspect(&transaction, true);
    transaction.verify(&replies, &VALID, &[], vec![true]).expect("verify");
    assert!(!transaction.verified_canonical_state().expect("canonical").is_empty());
    assert_eq!(
        transaction.discard_stage(),
        Some("/tmp/agent/staging/change-route-1".to_owned())
    );
}

#[test]
fn staged_or_native_drift_blocks_activation() {
    let (mut transaction, plan) = staged("change-route-drift");
    assert_eq!(
        transaction.validate_stage(b"tampered\n", plan.rollback_batch.as_bytes()),
        Err(GenericRuntimeRouteExecutionError::StagedDrift)
    );

    let (mut transaction, plan) = staged("change-route-native-drift");
    transaction
        .validate_stage(plan.apply_batch.as_bytes(), plan.rollback_batch.as_bytes())
        .expect("validate");
    let replies = inspect(&transaction, true);
    assert_eq!(
        transaction.begin_activation(&replies, &VALID, &[]),
        Err(GenericRuntimeRouteExecutionError::Inventory(
            RuntimeNetworkInventoryError::NativeDrift
        ))
    );
}

#[test]
fn unreadable_records_ask_for_the_full_inventory() {
    let transaction = GenericRuntimeRouteTransaction::system(
        "/tmp/agent".to_owned(),
        "change-1",
        "boot-1",
        Some(RuntimeCanonicalRecord { encoded_bytes: 3, state: None, valid: vec![] }),
        execution_plan(),
        true,
    )
    .expect("transaction");
    assert!(transaction.execution_requires_full_inventory());
    let commands: Vec<_> =
        transaction.inspection_commands().into_iter().map(|invocation| invocation.command).collect();
    assert_eq!(
        commands,
        [
            FirewallCommand::IpJsonLink,
            FirewallCommand::IpJsonAddress,
            FirewallCommand::IpJsonRoute,
            FirewallCommand::IpJsonRule,
        ]
    );
    assert_eq!(
        transaction.reconcile_snapshot(&vec![Ok(output("[]"))], &VALID, &[]),
        Err(GenericRuntimeRouteExecutionError::Inspection)
    );
    assert!(matches!(
        GenericRuntimeRouteTransaction::system(
            "/tmp".to_owned(),
            "change-1",
            "boot-1",
            None,
            execution_plan(),
            true
        ),
        Err(GenericRuntimeRouteExecutionError::InvalidIdentity)
    ));
}

fn execution_plan() -> NetworkMutationPlan {
    let route = NetworkObject::Route(NetworkRoute {
        id: "guest-default".into(),
        ownership: ObjectOwnership::AgentOwned,
        enabled: true,
        destination: IpNetwork { address: IpAddr::V4(0), prefix_len: 0 },
        gateway: Some(IpAddr::parse("192.0.2.1").expect("gateway")),
        output_interface: Some("eth0".into()),
        preferred_source: None,
        table: 100,
        metric: Some(20),
        route_type: NetworkRouteType::Unicast,
    });
    plan_network_mutations(
        &NetworkInventory { objects: vec![] },
        &[NetworkMutation::Create(route)],
    )
    .expect("plan")
}

fn output(value: &str) -> FirewallCommandOutput {
    FirewallCommandOutput {
        stdout: value.as_bytes().to_vec(),
        stderr: Vec::new(),
        truncated: false,
        duration_ms: 1,
    }
}

fn sha256_hex(text: &str) -> String {
    let digest = ring::digest::digest(&ring::digest::SHA256, text.as_bytes());
    digest.as_ref().iter().map(|byte| format!("{byte:02x}")).collect()
}

/// The changes that a planner takes.
#[allow(dead_code)]
enum NetworkMutation {
    Create(NetworkObject),
    Update { expected_digest: String, desired: NetworkObject },
    Move { expected_digest: String, desired: NetworkObject },
    Delete { kind: String, id: String, expected_digest: String },
}

fn network_object_digest(object: &NetworkObject) -> Option<String> {
    Some(sha256_hex(&format!("{object:?}")))
}

fn checks(object: &Option<NetworkObject>) -> ObjectChecks {
    ObjectChecks { valid: true, digest: object.as_ref().and_then(network_object_digest) }
}

/// Plans changes against an inventory, with the object model content with every object.
fn plan_network_mutations(inventory: &NetworkInventory, mutations: &[NetworkMutation]) -> Option<NetworkMutationPlan> {
    let find = |kind: &str, id: &str| {
        inventory
            .objects
            .iter()
            .find(|object| object.kind() == kind && object.id() == id)
            .cloned()
    };
    let mut changes = Vec::new();
    for mutation in mutations {
        let (operation, before, after) = match mutation {
            NetworkMutation::Create(object) => (ChangeOperation::Create, None, Some(object.clone())),
            NetworkMutation::Update { expected_digest, desired } => {
                let before = find(desired.kind(), desired.id())?;
                assert_eq!(network_object_digest(&before).as_ref(), Some(expected_digest));
                (ChangeOperation::Update, Some(before), Some(desired.clone()))
            }
            NetworkMutation::Move { expected_digest, desired } => {
                let before = find(desired.kind(), desired.id())?;
                assert_eq!(network_object_digest(&before).as_ref(), Some(expected_digest));
                (ChangeOperation::Move, Some(before), Some(desired.clone()))
            }
            NetworkMutation::Delete { kind, id, expected_digest } => {
                let before = find(kind, id)?;
                assert_eq!(network_object_digest(&before).as_ref(), Some(expected_digest));
                (ChangeOperation::Delete, Some(before), None)
            }
        };
        let before_checks = checks(&before);
        let after_checks = checks(&after);
        let subject = after.as_ref().or(before.as_ref())?;
        let diff = ObjectDiff {
            operation,
            object: ObjectReference {
                domain: ConfigDomain::Network,
                kind: subject.kind().to_owned(),
                id: subject.id().to_owned(),
                ownership: subject.ownership(),
                expected_version: before_checks.digest.clone(),
            },
            before_digest: before_checks.digest.clone(),
            after_digest: after_checks.digest.clone(),
        };
        changes.push(NetworkPlannedChange { before, after, diff, before_checks, after_checks });
    }
    Some(NetworkMutationPlan { risk: RiskLevel::R2, changes })
}

/// Answers commands by a rule, and notes them.
struct Answers<F> {
    rule: F,
    seen: RefCell<Vec<FirewallCommand>>,
}

impl<F> Answers<F> {
    fn new(rule: F) -> Self {
        Self { rule, seen: RefCell::new(Vec::new()) }
    }
}

impl<F> FirewallCommandExecutor for Answers<F>
where
    F: Fn(&FirewallCommand) -> Result<FirewallCommandOutput, FirewallCommandError>,
{
    fn execute(
        &self,
        operation: &FirewallCommand,
        _stdin: Option<&[u8]>,
    ) -> Result<FirewallCommandOutput, FirewallCommandError> {
        self.seen.borrow_mut().push(operation.clone());
        (self.rule)(operation)
    }
}

#[test]
fn route_executor_applies_only_an_unchanged_inspection() {
    let (mut transaction, plan) = staged("change-route-1");
    transaction
        .validate_stage(plan.apply_batch.as_bytes(), plan.rollback_batch.as_bytes())
        .expect("validate");
    let executor = Answers::new(|_: &FirewallCommand| Ok(output("")));
    let drifted = inspect(&transaction, true);
    assert_eq!(
        transaction.activate_after_rollback_armed(&executor, &drifted, &VALID, &[]),
        Err(GenericRuntimeRouteExecutionError::Inventory(
            RuntimeNetworkInventoryError::NativeDrift
        ))
    );
    let unchanged = inspect(&transaction, false);
    transaction
        .activate_after_rollback_armed(&executor, &unchanged, &VALID, &[])
        .expect("activate");
    assert_eq!(transaction.state(), TransactionState::Activated);
    assert_eq!(
        executor.seen.into_inner(),
        [FirewallCommand::IpBatch {
            batch_file: "/tmp/agent/staging/change-route-1/apply.ipbatch".to_owned(),
            continue_on_error: false,
        }]
    );
}

#[test]
fn failed_route_batch_is_not_activated() {
    let (mut transaction, plan) = staged("change-route-1");
    transaction
        .validate_stage(plan.apply_batch.as_bytes(), plan.rollback_batch.as_bytes())
        .expect("validate");
    let executor =
        Answers::new(|_: &FirewallCommand| Err(FirewallCommandError::TimedOut));
    let replies = inspect(&transaction, false);
    assert_eq!(
        transaction.activate_after_rollback_armed(&executor, &replies, &VALID, &[]),
        Err(GenericRuntimeRouteExecutionError::Command(FirewallCommandError::TimedOut))
    );
    assert_eq!(transaction.state(), TransactionState::Validated);
}
