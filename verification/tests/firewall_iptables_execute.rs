//! The transaction on both iptables families.

use std::cell::RefCell;

use platform_linux::change::{
    ChangeOperation, ConfigDomain, ObjectChecks, ObjectDiff, ObjectOwnership, ObjectReference,
    RiskLevel,
};
use platform_linux::firewall_command::{
    FirewallCommand, FirewallCommandError, FirewallCommandExecutor, FirewallCommandOutput,
};
use platform_linux::firewall_iptables_execute::{
    GenericIptablesExecutionError, GenericIptablesTransaction,
};
use platform_linux::firewall_model::{
    FirewallInventory, FirewallMutationPlan, FirewallObject, FirewallPlannedChange, FirewallVerdict,
    FirewallZone,
};
use platform_linux::firewall_runtime::{
    encode_applied_generic_firewall_state, iptables_observation, reconcile_iptables_observation,
    CollectedIptablesObservation, FirewallCanonicalRecord, GenericFirewallObservation,
    GenericFirewallStateError, OwnedDigests,
};
use platform_linux::transaction::{Invocation, TransactionState};

const BOOT_ID: &str = "01234567-89ab-cdef-0123-456789abcdef";

const OWNED_SAVE: &str = "*filter\n:MBED_INPUT - [0:0]\n-A INPUT -m comment --comment mbed-agent-owned:v1:input -j MBED_INPUT\n:MBED_OUTPUT - [0:0]\n-A OUTPUT -m comment --comment mbed-agent-owned:v1:output -j MBED_OUTPUT\n:MBED_FORWARD - [0:0]\n-A FORWARD -m comment --comment mbed-agent-owned:v1:forward -j MBED_FORWARD\nCOMMIT\n*mangle\n:MBED_MANGLE_FORWARD - [0:0]\n-A FORWARD -m comment --comment mbed-agent-owned:v1:mangle-forward -j MBED_MANGLE_FORWARD\nCOMMIT\n*nat\n:MBED_PREROUTING - [0:0]\n-A PREROUTING -m comment --comment mbed-agent-owned:v1:prerouting -j MBED_PREROUTING\n:MBED_POSTROUTING - [0:0]\n-A POSTROUTING -m comment --comment mbed-agent-owned:v1:postrouting -j MBED_POSTROUTING\nCOMMIT\n";

/// Both families of a system, as far as the commands of a transaction see them.
struct MockIptables {
    ipv4_owned: bool,
    ipv6_owned: bool,
    ipv4_validated: bool,
    ipv6_validated: bool,
    fail_ipv6_load: bool,
}

impl MockIptables {
    fn new(fail_ipv6_load: bool) -> Self {
        Self {
            ipv4_owned: false,
            ipv6_owned: false,
            ipv4_validated: false,
            ipv6_validated: false,
            fail_ipv6_load,
        }
    }

    fn save(&self, owned: bool) -> FirewallCommandOutput {
        output(if owned { OWNED_SAVE } else { "" })
    }

    fn observe(&self) -> Result<CollectedIptablesObservation, GenericFirewallStateError> {
        iptables_observation(Ok(self.save(self.ipv4_owned)), Ok(self.save(self.ipv6_owned)))
    }

    fn execute(
        &mut self,
        invocation: &Invocation,
    ) -> Result<FirewallCommandOutput, FirewallCommandError> {
        let input = invocation.stdin.as_ref().ok_or(FirewallCommandError::UnexpectedInput)?;
        match &invocation.command {
            FirewallCommand::IptablesRestoreTest { ipv6 } => {
                if !input.windows(16).any(|value| value == b":MBED_INPUT - [0") {
                    return Err(FirewallCommandError::Unsuccessful);
                }
                if *ipv6 {
                    self.ipv6_validated = true;
                } else {
                    self.ipv4_validated = true;
                }
                Ok(output(""))
            }
            FirewallCommand::IptablesRestore { ipv6: false } if self.ipv4_validated => {
                self.ipv4_owned = true;
                Ok(output(""))
            }
            FirewallCommand::IptablesRestore { ipv6: true }
                if self.ipv6_validated && !self.fail_ipv6_load =>
            {
                self.ipv6_owned = true;
                Ok(output(""))
            }
            FirewallCommand::IptablesRestore { ipv6: true } => {
                Err(FirewallCommandError::Unsuccessful)
            }
            _ => Err(FirewallCommandError::UnexpectedInput),
        }
    }

    /// Runs commands up to the first that fails.
    fn run(
        &mut self,
        invocations: &[Invocation],
    ) -> Vec<Result<FirewallCommandOutput, FirewallCommandError>> {
        let mut replies = Vec::new();
        for invocation in invocations {
            let reply = self.execute(invocation);
            let failed = reply.is_err();
            replies.push(reply);
            if failed {
                break;
            }
        }
        replies
    }
}

fn digests() -> OwnedDigests {
    owned_digests("", OWNED_SAVE, OWNED_SAVE)
}

fn validated(native: &mut MockIptables) -> GenericIptablesTransaction {
    let mut transaction =
        GenericIptablesTransaction::new(BOOT_ID, None, execution_plan(), true).expect("transaction");
    transaction.reinspect(native.observe(), &digests(), vec![]).expect("reinspect");
    transaction.stage().expect("stage");
    let tests = transaction.begin_validation().expect("tests");
    let replies = native.run(&tests);
    transaction.finish_validation(&replies).expect("validate both");
    transaction
}

#[test]
fn validates_both_families_before_loading_and_encodes_verified_state() {
    let mut native = MockIptables::new(false);
    let mut transaction = validated(&mut native);
    assert!(native.ipv4_validated && native.ipv6_validated);
    assert!(!native.ipv4_owned && !native.ipv6_owned);
    let loads = transaction.begin_activation(&native.observe(), &digests()).expect("loads");
    let replies = native.run(&loads);
    transaction.finish_activation(&replies).expect("activate both");
    let snapshot = transaction.snapshot().expect("snapshot");
    let observation = native.observe().expect("observation");
    let state = encode_applied_generic_firewall_state(
        snapshot,
        &[],
        transaction.plan(),
        BOOT_ID,
        GenericFirewallObservation::Iptables {
            ipv4_save: observation.ipv4_save(),
            ipv6_save: observation.ipv6_save(),
        },
        &digests(),
    )
    .expect("state");
    let encoded = format!("{state:?}").into_bytes();
    transaction.verify(&Ok(observation.clone()), &digests(), Some(encoded.clone())).expect("verify both");
    assert_eq!(transaction.verified_canonical_state(), Ok(&encoded));
    let record =
        FirewallCanonicalRecord { encoded_bytes: encoded.len(), state: Some(state), valid: vec![true] };
    let reconciled =
        reconcile_iptables_observation(Some(&record), BOOT_ID, &observation, &digests())
            .expect("reconcile");
    assert_eq!(reconciled.inventory().objects.len(), 1);
}

#[test]
fn second_family_failure_exposes_partial_activation_for_external_rollback() {
    let mut native = MockIptables::new(true);
    let mut transaction = validated(&mut native);
    let loads = transaction.begin_activation(&native.observe(), &digests()).expect("loads");
    let replies = native.run(&loads);
    assert!(matches!(
        transaction.finish_activation(&replies),
        Err(GenericIptablesExecutionError::Command(_))
    ));
    assert!(native.ipv4_owned);
    assert!(!native.ipv6_owned);
    let source = transaction.source_observation().expect("source");
    assert_eq!(source.ipv4_save(), "");
}

#[test]
fn steps_out_of_order_are_refused() {
    let mut transaction =
        GenericIptablesTransaction::system(BOOT_ID, None, execution_plan(), true).expect("transaction");
    assert_eq!(transaction.stage(), Err(GenericIptablesExecutionError::InvalidState));
    assert_eq!(transaction.begin_validation(), Err(GenericIptablesExecutionError::InvalidState));
    assert_eq!(
        transaction.finish_activation(&vec![]),
        Err(GenericIptablesExecutionError::InvalidState)
    );
    assert_eq!(
        transaction.verified_canonical_state(),
        Err(GenericIptablesExecutionError::InvalidState)
    );
    assert!(matches!(
        GenericIptablesTransaction::new("", None, execution_plan(), true),
        Err(GenericIptablesExecutionError::InvalidIdentity)
    ));
    assert!(matches!(
        GenericIptablesTransaction::new(BOOT_ID, None, execution_plan(), false),
        Err(GenericIptablesExecutionError::InvalidPlan)
    ));
}

#[test]
fn native_change_blocks_both_loads() {
    let mut native = MockIptables::new(false);
    let mut transaction = validated(&mut native);
    native.ipv4_owned = true;
    native.ipv6_owned = true;
    let refused = transaction.begin_activation(&native.observe(), &digests()).expect_err("drift");
    assert_eq!(
        refused,
        GenericIptablesExecutionError::State(GenericFirewallStateError::OrphanedNativeState)
    );
    assert_eq!(
        refused.message(),
        "generic firewall state failed: Agent-owned native firewall state has no volatile canonical record"
    );
}

fn execution_plan() -> FirewallMutationPlan {
    plan_firewall_mutations(
        &FirewallInventory { objects: Vec::new() },
        &[FirewallMutation::Create(FirewallObject::Zone(FirewallZone {
            id: "guest".into(),
            ownership: ObjectOwnership::AgentOwned,
            enabled: true,
            networks: vec!["guest0".into()],
            input: FirewallVerdict::Drop,
            output: FirewallVerdict::Accept,
            forward: FirewallVerdict::Drop,
            masquerade: false,
            mtu_fix: false,
        }))],
    )
    .expect("plan")
}

fn output(value: &str) -> FirewallCommandOutput {
    FirewallCommandOutput {
        stdout: value.as_bytes().to_vec(),
        stderr: Vec::new(),
        truncated: false,
        duration_ms: 1,
    }
}

/// Digests of native state, taken from its text.
fn owned_digests(table: &str, ipv4: &str, ipv6: &str) -> OwnedDigests {
    OwnedDigests {
        nftables: Ok(sha256_hex(table)),
        ipv4: Ok(sha256_hex(ipv4)),
        ipv6: Ok(sha256_hex(ipv6)),
    }
}

fn sha256_hex(text: &str) -> String {
    let digest = ring::digest::digest(&ring::digest::SHA256, text.as_bytes());
    digest.as_ref().iter().map(|byte| format!("{byte:02x}")).collect()
}

/// The changes that a planner takes.
#[allow(dead_code)]
enum FirewallMutation {
    Create(FirewallObject),
    Update { expected_digest: String, desired: FirewallObject },
    Move { expected_digest: String, desired: FirewallObject },
    Delete { kind: String, id: String, expected_digest: String },
}

fn firewall_object_digest(object: &FirewallObject) -> Option<String> {
    Some(sha256_hex(&format!("{object:?}")))
}

fn checks(object: &Option<FirewallObject>) -> ObjectChecks {
    ObjectChecks { valid: true, digest: object.as_ref().and_then(firewall_object_digest) }
}

/// Plans changes against an inventory, with the object model content with every object.
fn plan_firewall_mutations(inventory: &FirewallInventory, mutations: &[FirewallMutation]) -> Option<FirewallMutationPlan> {
    let find = |kind: &str, id: &str| {
        inventory
            .objects
            .iter()
            .find(|object| object.kind() == kind && object.id() == id)
            .cloned()
    };
    let mut changes = Vec::new();
    for mutation in mutations {
        let (operation, before, after) = match mutation {
            FirewallMutation::Create(object) => (ChangeOperation::Create, None, Some(object.clone())),
            FirewallMutation::Update { expected_digest, desired } => {
                let before = find(desired.kind(), desired.id())?;
                assert_eq!(firewall_object_digest(&before).as_ref(), Some(expected_digest));
                (ChangeOperation::Update, Some(before), Some(desired.clone()))
            }
            FirewallMutation::Move { expected_digest, desired } => {
                let before = find(desired.kind(), desired.id())?;
                assert_eq!(firewall_object_digest(&before).as_ref(), Some(expected_digest));
                (ChangeOperation::Move, Some(before), Some(desired.clone()))
            }
            FirewallMutation::Delete { kind, id, expected_digest } => {
                let before = find(kind, id)?;
                assert_eq!(firewall_object_digest(&before).as_ref(), Some(expected_digest));
                (ChangeOperation::Delete, Some(before), None)
            }
        };
        let before_checks = checks(&before);
        let after_checks = checks(&after);
        let subject = after.as_ref().or(before.as_ref())?;
        let diff = ObjectDiff {
            operation,
            object: ObjectReference {
                domain: ConfigDomain::Firewall,
                kind: subject.kind().to_owned(),
                id: subject.id().to_owned(),
                ownership: subject.ownership(),
                expected_version: before_checks.digest.clone(),
            },
            before_digest: before_checks.digest.clone(),
            after_digest: after_checks.digest.clone(),
        };
        changes.push(FirewallPlannedChange { before, after, diff, before_checks, after_checks });
    }
    Some(FirewallMutationPlan { risk: RiskLevel::R2, changes })
}

/// Answers commands by a rule, and notes them.
struct Answers<F> {
    rule: F,
    seen: RefCell<Vec<FirewallCommand>>,
}

impl<F> Answers<F> {
    fn new(rule: F) -> Self {
        Self { rule, seen: RefCell::new(Vec::new()) }
    }
}

impl<F> FirewallCommandExecutor for Answers<F>
where
    F: Fn(&FirewallCommand) -> Result<FirewallCommandOutput, FirewallCommandError>,
{
    fn execute(
        &self,
        operation: &FirewallCommand,
        _stdin: Option<&[u8]>,
    ) -> Result<FirewallCommandOutput, FirewallCommandError> {
        self.seen.borrow_mut().push(operation.clone());
        (self.rule)(operation)
    }
}

fn staged_families() -> GenericIptablesTransaction {
    let mut transaction =
        GenericIptablesTransaction::system(BOOT_ID, None, execution_plan(), true)
            .expect("transaction");
    transaction
        .reinspect(MockIptables::new(false).observe(), &digests(), vec![])
        .expect("reinspect");
    transaction.stage().expect("stage");
    transaction
}

#[test]
fn iptables_executor_tests_both_families_and_then_loads_them() {
    let mut transaction = staged_families();
    let executor = Answers::new(|_: &FirewallCommand| Ok(output("")));
    transaction.validate_stage(&executor).expect("validate");
    transaction
        .activate_after_rollback_armed(&executor, &MockIptables::new(false).observe(), &digests())
        .expect("activate");
    assert_eq!(transaction.state(), TransactionState::Activated);
    assert_eq!(
        executor.seen.into_inner(),
        [
            FirewallCommand::IptablesRestoreTest { ipv6: false },
            FirewallCommand::IptablesRestoreTest { ipv6: true },
            FirewallCommand::IptablesRestore { ipv6: false },
            FirewallCommand::IptablesRestore { ipv6: true },
        ]
    );
}

#[test]
fn iptables_commands_stop_at_the_first_that_fails() {
    let mut transaction = staged_families();
    let refusing =
        Answers::new(|_: &FirewallCommand| Err(FirewallCommandError::Unsuccessful));
    assert_eq!(
        transaction.validate_stage(&refusing),
        Err(GenericIptablesExecutionError::Command(FirewallCommandError::Unsuccessful))
    );
    assert_eq!(transaction.state(), TransactionState::Staged);
    assert_eq!(
        refusing.seen.into_inner(),
        [FirewallCommand::IptablesRestoreTest { ipv6: false }]
    );
}
