//! The transaction on the managed table.

use std::cell::RefCell;

use platform_linux::change::{
    ChangeOperation, ConfigDomain, ObjectChecks, ObjectDiff, ObjectOwnership, ObjectReference,
    RiskLevel,
};
use platform_linux::firewall_command::{
    FirewallCommand, FirewallCommandError, FirewallCommandExecutor, FirewallCommandOutput,
};
use platform_linux::firewall_model::{
    FirewallInventory, FirewallMutationPlan, FirewallObject, FirewallPlannedChange, FirewallVerdict,
    FirewallZone,
};
use platform_linux::firewall_nft_execute::{
    GenericNftablesExecutionError, GenericNftablesTransaction,
};
use platform_linux::firewall_runtime::{
    encode_applied_generic_firewall_state, nftables_observation, reconcile_nftables_observation,
    CollectedNftablesObservation, FirewallCanonicalRecord, GenericFirewallObservation,
    GenericFirewallStateError, OwnedDigests,
};
use platform_linux::transaction::{Invocation, TransactionState};

const OWNED_TABLE: &str = "table inet mbed_agent {\n\tcomment \"mbed-agent-owned:v1\"\n}\n";
const BOOT_ID: &str = "01234567-89ab-cdef-0123-456789abcdef";

/// The managed table of a system, as far as the commands of a transaction see it.
struct MockNft {
    managed: bool,
    checked: bool,
    loaded: bool,
    ruleset: Vec<u8>,
}

impl MockNft {
    fn new() -> Self {
        Self { managed: false, checked: false, loaded: false, ruleset: Vec::new() }
    }

    fn observe(&self) -> Result<CollectedNftablesObservation, GenericFirewallStateError> {
        nftables_observation(Ok(self.managed), Some(Ok(output(OWNED_TABLE))))
    }

    fn execute(
        &mut self,
        invocation: &Invocation,
    ) -> Result<FirewallCommandOutput, FirewallCommandError> {
        assert!(invocation.stdin.is_none());
        match &invocation.command {
            FirewallCommand::NftCheck { ruleset } => {
                assert_eq!(ruleset, "/tmp/agent/staging/change-nft-1/ruleset.nft");
                let value = String::from_utf8(self.ruleset.clone()).expect("text");
                if !value.contains("mbed-agent-owned:v1") {
                    return Err(FirewallCommandError::Unsuccessful);
                }
                self.checked = true;
                Ok(output(""))
            }
            FirewallCommand::NftLoad { ruleset } if self.checked => {
                assert_eq!(ruleset, "/tmp/agent/staging/change-nft-1/ruleset.nft");
                self.managed = true;
                self.loaded = true;
                Ok(output(""))
            }
            _ => Err(FirewallCommandError::UnexpectedInput),
        }
    }
}

fn digests() -> OwnedDigests {
    owned_digests(OWNED_TABLE, "", "")
}

fn inspected(native: &MockNft) -> GenericNftablesTransaction {
    let mut transaction = GenericNftablesTransaction::new(
        "/tmp/agent".to_owned(),
        "change-nft-1",
        BOOT_ID,
        None,
        execution_plan(),
        true,
        false,
    )
    .expect("transaction");
    transaction.reinspect(native.observe(), &digests(), vec![]).expect("reinspect");
    transaction
}

fn validated(transaction: &mut GenericNftablesTransaction, native: &mut MockNft) {
    let plan = transaction.begin_stage().expect("stage");
    assert_eq!(plan.staging_root, "/tmp/agent/staging");
    assert_eq!(plan.staging_dir, "/tmp/agent/staging/change-nft-1");
    assert_eq!(plan.file, "/tmp/agent/staging/change-nft-1/ruleset.nft");
    native.ruleset = plan.contents;
    transaction.stage_created().expect("created");
    transaction.finish_stage().expect("staged");
    let checks = transaction.begin_validation().expect("check");
    let replies = checks.iter().map(|check| native.execute(check)).collect();
    transaction.finish_validation(&replies).expect("checked");
}

#[test]
fn stages_checks_loads_and_encodes_verified_canonical_state() {
    let mut native = MockNft::new();
    let mut transaction = inspected(&native);
    assert_eq!(transaction.rollback_table_existed(), Ok(false));
    assert_eq!(
        transaction.rollback_ruleset().expect("rollback ruleset"),
        b"delete table inet mbed_agent\n"
    );
    validated(&mut transaction, &mut native);
    let loads = transaction.begin_activation(native.observe()).expect("load");
    let replies = loads.iter().map(|load| native.execute(load)).collect();
    transaction.finish_activation(&replies).expect("activate");
    assert!(native.loaded);
    let state = encode_applied_generic_firewall_state(
        transaction.snapshot().expect("snapshot"),
        &[],
        transaction.plan(),
        BOOT_ID,
        GenericFirewallObservation::Nftables(Some(OWNED_TABLE)),
        &digests(),
    )
    .expect("state");
    let encoded = format!("{state:?}").into_bytes();
    transaction.verify(native.observe(), &digests(), Some(encoded.clone())).expect("verify");
    assert_eq!(transaction.verified_canonical_state(), Ok(&encoded));
    let record =
        FirewallCanonicalRecord { encoded_bytes: encoded.len(), state: Some(state), valid: vec![true] };
    let restored = reconcile_nftables_observation(
        Some(&record),
        BOOT_ID,
        &native.observe().expect("observation"),
        &digests(),
    )
    .expect("reconcile applied state");
    assert_eq!(restored.inventory().objects.len(), 1);
    assert_eq!(
        transaction.discard_stage(),
        Some("/tmp/agent/staging/change-nft-1".to_owned())
    );
    assert_eq!(transaction.discard_stage(), None);
}

#[test]
fn concurrent_native_drift_blocks_activation() {
    let mut native = MockNft::new();
    let mut transaction = inspected(&native);
    validated(&mut transaction, &mut native);
    native.managed = true;
    assert_eq!(
        transaction.begin_activation(native.observe()),
        Err(GenericNftablesExecutionError::SourceDrift)
    );
    assert!(!native.loaded);
}

#[test]
fn rollback_restores_the_listed_table() {
    let listing = OWNED_TABLE.trim_end();
    let first = inspected(&MockNft::new());
    let state = encode_applied_generic_firewall_state(
        first.snapshot().expect("snapshot"),
        &[],
        first.plan(),
        BOOT_ID,
        GenericFirewallObservation::Nftables(Some(listing)),
        &owned_digests(listing, "", ""),
    )
    .expect("state");
    let record =
        FirewallCanonicalRecord { encoded_bytes: 100, state: Some(state), valid: vec![true] };
    let mut plan = execution_plan();
    plan.changes.clear();
    let mut transaction = GenericNftablesTransaction::new(
        "/tmp/agent".to_owned(),
        "change-nft-2",
        BOOT_ID,
        Some(record),
        plan,
        true,
        false,
    )
    .expect("transaction");
    transaction
        .reinspect(
            nftables_observation(Ok(true), Some(Ok(output(listing)))),
            &owned_digests(listing, "", ""),
            vec![true],
        )
        .expect("reinspect");
    assert_eq!(transaction.rollback_table_existed(), Ok(true));
    assert_eq!(
        transaction.rollback_ruleset().expect("rollback"),
        format!("delete table inet mbed_agent\n{listing}\n").into_bytes()
    );
}

#[test]
fn only_private_volatile_directories_are_accepted() {
    let create = |root: &str, id: &str, boot: &str| {
        GenericNftablesTransaction::system(root.to_owned(), id, boot, None, execution_plan(), true)
            .map(|_| ())
    };
    assert_eq!(create("/tmp/agent", "a-1", BOOT_ID), Ok(()));
    for root in ["/tmp", "/tmp/", "/var/agent", "tmp/agent", "/tmp/../etc", "/tmpfile"] {
        assert_eq!(create(root, "a-1", BOOT_ID), Err(GenericNftablesExecutionError::UnsafeRuntime));
    }
    for id in ["", "a_1", "a/b", &"a".repeat(65)] {
        assert_eq!(
            create("/tmp/agent", id, BOOT_ID),
            Err(GenericNftablesExecutionError::InvalidIdentity)
        );
    }
    assert_eq!(
        create("/tmp/agent", "a-1", "boot id"),
        Err(GenericNftablesExecutionError::InvalidIdentity)
    );
}

fn execution_plan() -> FirewallMutationPlan {
    plan_firewall_mutations(
        &FirewallInventory { objects: Vec::new() },
        &[FirewallMutation::Create(FirewallObject::Zone(FirewallZone {
            id: "guest".into(),
            ownership: ObjectOwnership::AgentOwned,
            enabled: true,
            networks: vec!["guest0".into()],
            input: FirewallVerdict::Drop,
            output: FirewallVerdict::Accept,
            forward: FirewallVerdict::Drop,
            masquerade: false,
            mtu_fix: false,
        }))],
    )
    .expect("plan")
}

fn output(value: &str) -> FirewallCommandOutput {
    FirewallCommandOutput {
        stdout: value.as_bytes().to_vec(),
        stderr: Vec::new(),
        truncated: false,
        duration_ms: 1,
    }
}

/// Digests of native state, taken from its text.
fn owned_digests(table: &str, ipv4: &str, ipv6: &str) -> OwnedDigests {
    OwnedDigests {
        nftables: Ok(sha256_hex(table)),
        ipv4: Ok(sha256_hex(ipv4)),
        ipv6: Ok(sha256_hex(ipv6)),
    }
}

fn sha256_hex(text: &str) -> String {
    let digest = ring::digest::digest(&ring::digest::SHA256, text.as_bytes());
    digest.as_ref().iter().map(|byte| format!("{byte:02x}")).collect()
}

/// The changes that a planner takes.
#[allow(dead_code)]
enum FirewallMutation {
    Create(FirewallObject),
    Update { expected_digest: String, desired: FirewallObject },
    Move { expected_digest: String, desired: FirewallObject },
    Delete { kind: String, id: String, expected_digest: String },
}

fn firewall_object_digest(object: &FirewallObject) -> Option<String> {
    Some(sha256_hex(&format!("{object:?}")))
}

fn checks(object: &Option<FirewallObject>) -> ObjectChecks {
    ObjectChecks { valid: true, digest: object.as_ref().and_then(firewall_object_digest) }
}

/// Plans changes against an inventory, with the object model content with every object.
fn plan_firewall_mutations(inventory: &FirewallInventory, mutations: &[FirewallMutation]) -> Option<FirewallMutationPlan> {
    let find = |kind: &str, id: &str| {
        inventory
            .objects
            .iter()
            .find(|object| object.kind() == kind && object.id() == id)
            .cloned()
    };
    let mut changes = Vec::new();
    for mutation in mutations {
        let (operation, before, after) = match mutation {
            FirewallMutation::Create(object) => (ChangeOperation::Create, None, Some(object.clone())),
            FirewallMutation::Update { expected_digest, desired } => {
                let before = find(desired.kind(), desired.id())?;
                assert_eq!(firewall_object_digest(&before).as_ref(), Some(expected_digest));
                (ChangeOperation::Update, Some(before), Some(desired.clone()))
            }
            FirewallMutation::Move { expected_digest, desired } => {
                let before = find(desired.kind(), desired.id())?;
                assert_eq!(firewall_object_digest(&before).as_ref(), Some(expected_digest));
                (ChangeOperation::Move, Some(before), Some(desired.clone()))
            }
            FirewallMutation::Delete { kind, id, expected_digest } => {
                let before = find(kind, id)?;
                assert_eq!(firewall_object_digest(&before).as_ref(), Some(expected_digest));
                (ChangeOperation::Delete, Some(before), None)
            }
        };
        let before_checks = checks(&before);
        let after_checks = checks(&after);
        let subject = after.as_ref().or(before.as_ref())?;
        let diff = ObjectDiff {
            operation,
            object: ObjectReference {
                domain: ConfigDomain::Firewall,
                kind: subject.kind().to_owned(),
                id: subject.id().to_owned(),
                ownership: subject.ownership(),
                expected_version: before_checks.digest.clone(),
            },
            before_digest: before_checks.digest.clone(),
            after_digest: after_checks.digest.clone(),
        };
        changes.push(FirewallPlannedChange { before, after, diff, before_checks, after_checks });
    }
    Some(FirewallMutationPlan { risk: RiskLevel::R2, changes })
}

/// Answers commands by a rule, and notes them.
struct Answers<F> {
    rule: F,
    seen: RefCell<Vec<FirewallCommand>>,
}

impl<F> Answers<F> {
    fn new(rule: F) -> Self {
        Self { rule, seen: RefCell::new(Vec::new()) }
    }
}

impl<F> FirewallCommandExecutor for Answers<F>
where
    F: Fn(&FirewallCommand) -> Result<FirewallCommandOutput, FirewallCommandError>,
{
    fn execute(
        &self,
        operation: &FirewallCommand,
        _stdin: Option<&[u8]>,
    ) -> Result<FirewallCommandOutput, FirewallCommandError> {
        self.seen.borrow_mut().push(operation.clone());
        (self.rule)(operation)
    }
}

fn ready() -> GenericNftablesTransaction {
    let mut transaction = inspected(&MockNft::new());
    transaction.begin_stage().expect("stage");
    transaction.stage_created().expect("created");
    transaction.finish_stage().expect("staged");
    transaction
}

#[test]
fn nftables_executor_runs_the_check_and_then_the_load() {
    let path = "/tmp/agent/staging/change-nft-1/ruleset.nft".to_owned();
    let mut transaction = ready();
    let executor = Answers::new(|_: &FirewallCommand| Ok(output("")));
    transaction.validate_stage(&executor).expect("validate");
    transaction
        .activate_after_rollback_armed(&executor, MockNft::new().observe())
        .expect("activate");
    assert_eq!(transaction.state(), TransactionState::Activated);
    assert_eq!(
        executor.seen.into_inner(),
        [
            FirewallCommand::NftCheck { ruleset: path.clone() },
            FirewallCommand::NftLoad { ruleset: path },
        ]
    );
}

#[test]
fn nftables_failed_check_or_drift_runs_no_load() {
    let mut transaction = ready();
    let refusing =
        Answers::new(|_: &FirewallCommand| Err(FirewallCommandError::Unsuccessful));
    assert_eq!(
        transaction.validate_stage(&refusing),
        Err(GenericNftablesExecutionError::Command(FirewallCommandError::Unsuccessful))
    );
    assert_eq!(transaction.state(), TransactionState::Staged);
    assert_eq!(
        transaction.activate_after_rollback_armed(&refusing, MockNft::new().observe()),
        Err(GenericNftablesExecutionError::InvalidState)
    );
    let content = Answers::new(|_: &FirewallCommand| Ok(output("")));
    transaction.validate_stage(&content).expect("validate");
    let mut drifted = MockNft::new();
    drifted.managed = true;
    assert_eq!(
        transaction.activate_after_rollback_armed(&content, drifted.observe()),
        Err(GenericNftablesExecutionError::SourceDrift)
    );
    assert_eq!(content.seen.into_inner().len(), 1);
}
