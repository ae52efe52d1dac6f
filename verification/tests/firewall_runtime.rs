//! Reconciliation of native firewall state with its record.

use platform_linux::change::{
    ChangeOperation, ConfigDomain, ObjectChecks, ObjectDiff, ObjectOwnership, ObjectReference,
    RiskLevel,
};
use platform_linux::firewall_command::{
    FirewallCommand, FirewallCommandError, FirewallCommandExecutor, FirewallCommandOutput,
};
use platform_linux::firewall_model::{
    FirewallInventory, FirewallMutationPlan, FirewallObject, FirewallPlannedChange, FirewallVerdict,
    FirewallZone,
};
use platform_linux::firewall_runtime::{
    bound_encoding, collect_nftables_observation, collect_nftables_tables,
    encode_applied_generic_firewall_state, inspect_generic_firewall_inventory, printed_text,
    reconcile_nftables_observation, render_nftables_stage_from_snapshot, CanonicalState,
    FirewallCanonicalRecord, GenericFirewallBackend, GenericFirewallInventorySnapshot,
    GenericFirewallObservation, GenericFirewallStateError, NativeFingerprint, OwnedDigests,
};

const OWNED_SAVE: &str = "*filter\n:MBED_INPUT - [0:0]\n-A INPUT -m comment --comment mbed-agent-owned:v1:input -j MBED_INPUT\n:MBED_OUTPUT - [0:0]\n-A OUTPUT -m comment --comment mbed-agent-owned:v1:output -j MBED_OUTPUT\n:MBED_FORWARD - [0:0]\n-A FORWARD -m comment --comment mbed-agent-owned:v1:forward -j MBED_FORWARD\nCOMMIT\n*mangle\n:MBED_MANGLE_FORWARD - [0:0]\n-A FORWARD -m comment --comment mbed-agent-owned:v1:mangle-forward -j MBED_MANGLE_FORWARD\nCOMMIT\n*nat\n:MBED_PREROUTING - [0:0]\n-A PREROUTING -m comment --comment mbed-agent-owned:v1:prerouting -j MBED_PREROUTING\n:MBED_POSTROUTING - [0:0]\n-A POSTROUTING -m comment --comment mbed-agent-owned:v1:postrouting -j MBED_POSTROUTING\nCOMMIT\n";

const BOOT_ID: &str = "01234567-89ab-cdef-0123-456789abcdef";

struct NftObservation {
    tables: &'static str,
    managed: Option<&'static str>,
}

impl FirewallCommandExecutor for NftObservation {
    fn execute(
        &self,
        operation: &FirewallCommand,
        _stdin: Option<&[u8]>,
    ) -> Result<FirewallCommandOutput, FirewallCommandError> {
        let value = match operation {
            FirewallCommand::NftListTables => self.tables,
            FirewallCommand::NftListManagedTable => {
                self.managed.ok_or(FirewallCommandError::Unsuccessful)?
            }
            _ => return Err(FirewallCommandError::UnexpectedInput),
        };
        Ok(FirewallCommandOutput {
            stdout: value.as_bytes().to_vec(),
            stderr: Vec::new(),
            truncated: false,
            duration_ms: 1,
        })
    }
}

fn owned_nft() -> &'static str {
    "table inet mbed_agent {\n comment \"mbed-agent-owned:v1\"\n chain input { }\n}\n"
}

fn digests(listing: &str) -> OwnedDigests {
    owned_digests(listing, "", "")
}

fn nft_inventory(
    record: Option<&FirewallCanonicalRecord>,
    boot_id: &str,
    listing: Option<&str>,
) -> Result<GenericFirewallInventorySnapshot, GenericFirewallStateError> {
    inspect_generic_firewall_inventory(
        record,
        boot_id,
        GenericFirewallBackend::Nftables,
        GenericFirewallObservation::Nftables(listing),
        &digests(listing.unwrap_or_default()),
    )
}

fn stored(state: CanonicalState) -> FirewallCanonicalRecord {
    let valid = vec![true; state.inventory.objects.len()];
    FirewallCanonicalRecord { encoded_bytes: 512, state: Some(state), valid }
}

#[test]
fn first_use_requires_native_state_to_be_absent() {
    let executor = NftObservation { tables: "table ip filter\n", managed: None };
    let tables = collect_nftables_tables(&executor).expect("tables");
    assert_eq!(tables, "table ip filter\n");
    let observation =
        collect_nftables_observation(&executor, Ok(tables.contains("table inet mbed_agent")))
            .expect("observation");
    let collected =
        reconcile_nftables_observation(None, BOOT_ID, &observation, &digests(""))
            .expect("collected first use");
    assert!(collected.inventory().objects.is_empty());
    let snapshot = nft_inventory(None, BOOT_ID, None).expect("empty first use");
    assert!(snapshot.inventory().objects.is_empty());
    assert_eq!(
        nft_inventory(None, BOOT_ID, Some(owned_nft())),
        Err(GenericFirewallStateError::OrphanedNativeState)
    );
}

#[test]
fn applied_state_round_trips_and_detects_native_drift() {
    let snapshot = nft_inventory(None, BOOT_ID, None).expect("snapshot");
    let plan = plan_firewall_mutations(snapshot.inventory(), &[FirewallMutation::Create(lan_zone())])
        .expect("plan");
    let state = encode_applied_generic_firewall_state(
        &snapshot,
        &[],
        &plan,
        BOOT_ID,
        GenericFirewallObservation::Nftables(Some(owned_nft())),
        &digests(owned_nft()),
    )
    .expect("encode");
    let record = stored(state);
    let restored = nft_inventory(Some(&record), BOOT_ID, Some(owned_nft())).expect("restore");
    assert_eq!(restored.inventory().objects.len(), 1);
    assert_eq!(restored.inventory().objects, [lan_zone()]);
    assert_eq!(restored.boot_id(), BOOT_ID);
    assert_eq!(restored.backend(), GenericFirewallBackend::Nftables);
    assert_eq!(
        nft_inventory(Some(&record), "11234567-89ab-cdef-0123-456789abcdef", Some(owned_nft())),
        Err(GenericFirewallStateError::StaleState)
    );

    let drifted = owned_nft().replace("chain input { }", "chain input { drop }");
    assert_eq!(
        nft_inventory(Some(&record), BOOT_ID, Some(&drifted)),
        Err(GenericFirewallStateError::NativeDrift)
    );
    let stage = render_nftables_stage_from_snapshot(&restored, &[true], &FirewallMutationPlan {
        risk: RiskLevel::R2,
        changes: Vec::new(),
    })
    .expect("render");
    assert!(stage.ruleset.starts_with("delete table inet mbed_agent\n"));
}

#[test]
fn canonical_state_is_boot_bound() {
    let record = stored(CanonicalState {
        schema_version: 1,
        boot_id: BOOT_ID.into(),
        backend: GenericFirewallBackend::Nftables,
        inventory: FirewallInventory { objects: Vec::new() },
        native: NativeFingerprint::Nftables { digest: sha256_hex(owned_nft()) },
    });
    assert_eq!(
        nft_inventory(Some(&record), "other-boot", Some(owned_nft())),
        Err(GenericFirewallStateError::StaleState)
    );
}

#[test]
fn records_are_bounded_decodable_and_owned() {
    let mut record = stored(CanonicalState {
        schema_version: 1,
        boot_id: BOOT_ID.into(),
        backend: GenericFirewallBackend::Nftables,
        inventory: FirewallInventory { objects: vec![lan_zone()] },
        native: NativeFingerprint::Nftables { digest: sha256_hex(owned_nft()) },
    });
    assert!(nft_inventory(Some(&record), BOOT_ID, Some(owned_nft())).is_ok());
    assert_eq!(
        nft_inventory(Some(&record), "boot id", Some(owned_nft())),
        Err(GenericFirewallStateError::InvalidBootId)
    );
    record.valid = vec![false];
    assert_eq!(
        nft_inventory(Some(&record), BOOT_ID, Some(owned_nft())),
        Err(GenericFirewallStateError::CorruptState)
    );
    record.encoded_bytes = 262_145;
    assert_eq!(
        nft_inventory(Some(&record), BOOT_ID, Some(owned_nft())),
        Err(GenericFirewallStateError::Capacity)
    );
    let undecodable = FirewallCanonicalRecord { encoded_bytes: 3, state: None, valid: vec![] };
    assert_eq!(
        nft_inventory(Some(&undecodable), BOOT_ID, None),
        Err(GenericFirewallStateError::CorruptState)
    );
    assert_eq!(
        bound_encoding(Some(vec![0; 262_145])),
        Err(GenericFirewallStateError::Capacity)
    );
    assert_eq!(bound_encoding(None), Err(GenericFirewallStateError::CorruptState));
    assert_eq!(bound_encoding(Some(vec![1, 2])), Ok(vec![1, 2]));
}

#[test]
fn output_that_is_no_text_is_refused() {
    let output = FirewallCommandOutput {
        stdout: vec![0xff, 0xfe],
        stderr: Vec::new(),
        truncated: false,
        duration_ms: 1,
    };
    assert_eq!(
        printed_text(Ok(output.clone())),
        Err(GenericFirewallStateError::NativeInspection)
    );
    let text = FirewallCommandOutput { stdout: "größe".as_bytes().to_vec(), ..output };
    assert_eq!(printed_text(Ok(text)), Ok("größe".to_owned()));
}

#[test]
fn one_family_alone_is_partial_state() {
    let observation = GenericFirewallObservation::Iptables {
        ipv4_save: OWNED_SAVE,
        ipv6_save: "",
    };
    let inspect = |observation| {
        inspect_generic_firewall_inventory(
            None,
            BOOT_ID,
            GenericFirewallBackend::Iptables,
            observation,
            &owned_digests("", OWNED_SAVE, OWNED_SAVE),
        )
    };
    assert_eq!(inspect(observation), Err(GenericFirewallStateError::PartialFamilyState));
    assert_eq!(
        inspect(GenericFirewallObservation::Nftables(None)),
        Err(GenericFirewallStateError::BackendMismatch)
    );
}

fn lan_zone() -> FirewallObject {
    FirewallObject::Zone(FirewallZone {
        id: "lan".into(),
        ownership: ObjectOwnership::AgentOwned,
        enabled: true,
        networks: vec!["lan0".into()],
        input: FirewallVerdict::Accept,
        output: FirewallVerdict::Accept,
        forward: FirewallVerdict::Drop,
        masquerade: false,
        mtu_fix: false,
    })
}

/// Digests of native state, taken from its text.
fn owned_digests(table: &str, ipv4: &str, ipv6: &str) -> OwnedDigests {
    OwnedDigests {
        nftables: Ok(sha256_hex(table)),
        ipv4: Ok(sha256_hex(ipv4)),
        ipv6: Ok(sha256_hex(ipv6)),
    }
}

fn sha256_hex(text: &str) -> String {
    let digest = ring::digest::digest(&ring::digest::SHA256, text.as_bytes());
    digest.as_ref().iter().map(|byte| format!("{byte:02x}")).collect()
}

/// The changes that a planner takes.
#[allow(dead_code)]
enum FirewallMutation {
    Create(FirewallObject),
    Update { expected_digest: String, desired: FirewallObject },
    Move { expected_digest: String, desired: FirewallObject },
    Delete { kind: String, id: String, expected_digest: String },
}

fn firewall_object_digest(object: &FirewallObject) -> Option<String> {
    Some(sha256_hex(&format!("{object:?}")))
}

fn checks(object: &Option<FirewallObject>) -> ObjectChecks {
    ObjectChecks { valid: true, digest: object.as_ref().and_then(firewall_object_digest) }
}

/// Plans changes against an inventory, with the object model content with every object.
fn plan_firewall_mutations(inventory: &FirewallInventory, mutations: &[FirewallMutation]) -> Option<FirewallMutationPlan> {
    let find = |kind: &str, id: &str| {
        inventory
            .objects
            .iter()
            .find(|object| object.kind() == kind && object.id() == id)
            .cloned()
    };
    let mut changes = Vec::new();
    for mutation in mutations {
        let (operation, before, after) = match mutation {
            FirewallMutation::Create(object) => (ChangeOperation::Create, None, Some(object.clone())),
            FirewallMutation::Update { expected_digest, desired } => {
                let before = find(desired.kind(), desired.id())?;
                assert_eq!(firewall_object_digest(&before).as_ref(), Some(expected_digest));
                (ChangeOperation::Update, Some(before), Some(desired.clone()))
            }
            FirewallMutation::Move { expected_digest, desired } => {
                let before = find(desired.kind(), desired.id())?;
                assert_eq!(firewall_object_digest(&before).as_ref(), Some(expected_digest));
                (ChangeOperation::Move, Some(before), Some(desired.clone()))
            }
            FirewallMutation::Delete { kind, id, expected_digest } => {
                let before = find(kind, id)?;
                assert_eq!(firewall_object_digest(&before).as_ref(), Some(expected_digest));
                (ChangeOperation::Delete, Some(before), None)
            }
        };
        let before_checks = checks(&before);
        let after_checks = checks(&after);
        let subject = after.as_ref().or(before.as_ref())?;
        let diff = ObjectDiff {
            operation,
            object: ObjectReference {
                domain: ConfigDomain::Firewall,
                kind: subject.kind().to_owned(),
                id: subject.id().to_owned(),
                ownership: subject.ownership(),
                expected_version: before_checks.digest.clone(),
            },
            before_digest: before_checks.digest.clone(),
            after_digest: after_checks.digest.clone(),
        };
        changes.push(FirewallPlannedChange { before, after, diff, before_checks, after_checks });
    }
    Some(FirewallMutationPlan { risk: RiskLevel::R2, changes })
}
