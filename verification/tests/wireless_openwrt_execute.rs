//! The transaction on the wireless package.

use std::cell::RefCell;

use platform_linux::change::{
    ChangeOperation, ConfigDomain, ObjectChecks, ObjectDiff, ObjectOwnership, ObjectReference,
    RiskLevel,
};
use platform_linux::firewall_command::{
    FirewallCommand, FirewallCommandError, FirewallCommandExecutor, FirewallCommandOutput,
};
use platform_linux::transaction::{ConfigRead, FileFacts, TransactionState};
use platform_linux::wireless_model::{
    WirelessBand, WirelessChannel, WirelessChannelWidth, WirelessInventory, WirelessMutationPlan,
    WirelessObject, WirelessPlannedChange, WirelessRadioConfig,
};
use platform_linux::wireless_openwrt_execute::{
    verify_openwrt_wireless_plan, OpenWrtWirelessExecutionError, OpenWrtWirelessTransaction,
};

/// The object model is content with everything.
const VALID: [bool; 64] = [true; 64];

const CONFIG: &[u8] = b"original-wireless\n";

fn config() -> ConfigRead {
    ConfigRead {
        facts: FileFacts {
            is_dir: false,
            is_file: true,
            is_symlink: false,
            length: CONFIG.len() as u64,
            uid: 1000,
            gid: 1000,
            mode: 0o600,
        },
        bytes: CONFIG.to_vec(),
    }
}

fn transaction() -> OpenWrtWirelessTransaction {
    OpenWrtWirelessTransaction::new(
        "/tmp/agent/runtime".to_owned(),
        "/etc/config/wireless".to_owned(),
        "change-1",
        execution_plan(),
        true,
        false,
    )
    .expect("transaction")
}

fn inspected() -> OpenWrtWirelessTransaction {
    let mut transaction = transaction();
    transaction
        .reinspect(&config(), Ok(output(&initial_uci())), &VALID, Some(projected()))
        .expect("inspect");
    transaction
}

fn staged() -> OpenWrtWirelessTransaction {
    let mut transaction = inspected();
    let plan = transaction.begin_stage().expect("stage");
    assert_eq!(plan.staging_root, "/tmp/agent/runtime/staging");
    assert_eq!(plan.file, "/tmp/agent/runtime/staging/change-1/wireless");
    assert_eq!(plan.contents, CONFIG);
    let dir = "/tmp/agent/runtime/staging/change-1".to_owned();
    assert_eq!(plan.invocations[0].command, FirewallCommand::UciBatch { staging_dir: dir.clone() });
    let batch = plan.invocations[0].stdin.as_ref().expect("batch");
    assert!(batch.ends_with(b"commit wireless\n"));
    assert_eq!(plan.invocations[1].command, FirewallCommand::UciShowWirelessAt { staging_dir: dir });
    transaction.stage_created().expect("created");
    transaction
        .finish_stage(&vec![Ok(output("")), Ok(output(&desired_uci()))], &VALID)
        .expect("staged");
    transaction
}

fn validated() -> OpenWrtWirelessTransaction {
    let mut transaction = staged();
    let checks = transaction.begin_validation().expect("checks");
    let dir = "/tmp/agent/runtime/staging/change-1".to_owned();
    assert_eq!(checks.len(), 1);
    assert_eq!(checks[0].command, FirewallCommand::UciExportWirelessAt { staging_dir: dir });
    transaction.finish_validation(&vec![Ok(output(""))]).expect("validate");
    transaction
}

#[test]
fn stages_validates_activates_and_verifies_typed_radio_state() {
    let mut transaction = validated();
    let install =
        transaction.begin_activation(Ok(output(&initial_uci())), &config()).expect("install");
    assert_eq!(install.staged, "/tmp/agent/runtime/staging/change-1/wireless");
    assert_eq!(install.destination, "/etc/config/wireless");
    assert_eq!(install.temporary_name, ".mbed-agent-change-1.tmp");
    assert_eq!(install.reload.command, FirewallCommand::OpenWrtWirelessReload);
    transaction.finish_activation(Ok(output(""))).expect("activate");
    transaction.verify(Ok(output(&desired_uci())), &VALID, true).expect("verify");
    assert_eq!(transaction.state(), TransactionState::Verified);
    assert_eq!(
        transaction.discard_stage(),
        Some("/tmp/agent/runtime/staging/change-1".to_owned())
    );
}

#[test]
fn source_drift_blocks_wireless_install() {
    let mut transaction = validated();
    assert_eq!(
        transaction.check_shown(Ok(output("wireless.changed=wifi-device\n"))),
        Err(OpenWrtWirelessExecutionError::SourceDrift)
    );
    assert!(transaction.check_shown(Ok(output(&initial_uci()))).is_ok());
    assert_eq!(
        transaction.begin_activation(Ok(output("wireless.changed=wifi-device\n")), &config()),
        Err(OpenWrtWirelessExecutionError::SourceDrift)
    );
    let mut changed = config();
    changed.bytes[0] = b'X';
    assert_eq!(
        transaction.begin_activation(Ok(output(&initial_uci())), &changed),
        Err(OpenWrtWirelessExecutionError::SourceDrift)
    );
    assert_eq!(transaction.finish_activation(Ok(output(""))), Err(OpenWrtWirelessExecutionError::InvalidState));
    assert_eq!(transaction.state(), TransactionState::Validated);
}

#[test]
fn wireless_openwrt_execute_staged_typed_mismatch_fails_before_validation() {
    let mut transaction = inspected();
    transaction.begin_stage().expect("stage");
    transaction.stage_created().expect("created");
    assert_eq!(
        transaction.finish_stage(&vec![Ok(output("")), Ok(output(&initial_uci()))], &VALID),
        Err(OpenWrtWirelessExecutionError::StagedStateMismatch)
    );
    assert_eq!(transaction.begin_validation(), Err(OpenWrtWirelessExecutionError::InvalidState));
}

#[test]
fn wireless_inspection_refuses_unsafe_input() {
    let mut unread = transaction();
    let mut linked = config();
    linked.facts.is_symlink = true;
    assert_eq!(
        unread.reinspect(&linked, Ok(output(&initial_uci())), &VALID, Some(projected())),
        Err(OpenWrtWirelessExecutionError::UnsafeConfig)
    );
    let mut shorter = config();
    shorter.bytes.pop();
    assert_eq!(
        unread.reinspect(&shorter, Ok(output(&initial_uci())), &VALID, Some(projected())),
        Err(OpenWrtWirelessExecutionError::SourceDrift)
    );
    assert_eq!(
        unread.reinspect(&config(), Err(FirewallCommandError::TimedOut), &VALID, Some(projected())),
        Err(OpenWrtWirelessExecutionError::Command(FirewallCommandError::TimedOut))
    );
    assert_eq!(
        unread.reinspect(&config(), Ok(output(&initial_uci())), &VALID, None),
        Err(OpenWrtWirelessExecutionError::StalePlan)
    );
    let mut binary = output("");
    binary.stdout = vec![0xff];
    assert_eq!(
        unread.reinspect(&config(), Ok(binary), &VALID, Some(projected())),
        Err(OpenWrtWirelessExecutionError::MalformedInspection)
    );
    assert_eq!(unread.state(), TransactionState::New);
    assert!(matches!(
        OpenWrtWirelessTransaction::system(
            "/etc".to_owned(),
            "change-1",
            execution_plan(),
            true,
        ),
        Err(OpenWrtWirelessExecutionError::UnsafeRuntime)
    ));
    assert!(matches!(
        OpenWrtWirelessTransaction::system(
            "/tmp/agent".to_owned(),
            "change 1",
            execution_plan(),
            true,
        ),
        Err(OpenWrtWirelessExecutionError::InvalidTransaction)
    ));
}

fn initial_uci() -> String {
    "wireless.radio0=wifi-device\n\
     wireless.radio0.type='mac80211'\n\
     wireless.radio0.path='platform/soc/radio'\n\
     wireless.radio0.hwmode='11a'\n\
     wireless.radio0.channel='36'\n\
     wireless.radio0.htmode='VHT80'\n\
     wireless.radio0.country='CN'\n\
     wireless.default_radio0=wifi-iface\n\
     wireless.default_radio0.device='radio0'\n\
     wireless.default_radio0.ssid='private'\n"
        .to_owned()
}

fn desired_uci() -> String {
    "wireless.radio0=wifi-device\n\
     wireless.radio0.type='mac80211'\n\
     wireless.radio0.path='platform/soc/radio'\n\
     wireless.radio0.hwmode='11a'\n\
     wireless.radio0.channel='40'\n\
     wireless.radio0.htmode='VHT80'\n\
     wireless.radio0.country='CN'\n\
     wireless.radio0.disabled='0'\n\
     wireless.default_radio0=wifi-iface\n\
     wireless.default_radio0.device='radio0'\n\
     wireless.default_radio0.ssid='private'\n"
        .to_owned()
}

fn projected() -> WirelessInventory {
    WirelessInventory {
        objects: execution_plan().changes.into_iter().map(|change| change.after).collect(),
    }
}

fn execution_plan() -> WirelessMutationPlan {
    let before = WirelessObject::Radio(WirelessRadioConfig {
        id: "radio0".into(),
        ownership: ObjectOwnership::PlatformNative,
        enabled: true,
        band: WirelessBand::Ghz5,
        channel: WirelessChannel::Fixed { channel: 36 },
        width: WirelessChannelWidth::Mhz80,
        country: Some("CN".into()),
        tx_power_dbm: None,
    });
    let mut after = before.clone();
    let WirelessObject::Radio(radio) = &mut after;
    radio.channel = WirelessChannel::Fixed { channel: 40 };
    plan_wireless_mutations(
        &WirelessInventory { objects: vec![before.clone()] },
        &[WirelessUpdate {
            expected_digest: wireless_object_digest(&before).expect("digest"),
            desired: after,
        }],
    )
    .expect("plan")
}

fn output(value: &str) -> FirewallCommandOutput {
    FirewallCommandOutput {
        stdout: value.as_bytes().to_vec(),
        stderr: Vec::new(),
        truncated: false,
        duration_ms: 1,
    }
}

#[test]
fn a_wireless_plan_is_verified_against_the_live_package() {
    let reply = || Ok(output(&desired_uci()));
    assert_eq!(verify_openwrt_wireless_plan(true, reply(), &VALID, true), Ok(()));
    assert_eq!(
        verify_openwrt_wireless_plan(false, reply(), &VALID, true),
        Err(OpenWrtWirelessExecutionError::InvalidPlan)
    );
    assert_eq!(
        verify_openwrt_wireless_plan(true, reply(), &VALID, false),
        Err(OpenWrtWirelessExecutionError::VerificationFailed)
    );
}

fn sha256_hex(text: &str) -> String {
    let digest = ring::digest::digest(&ring::digest::SHA256, text.as_bytes());
    digest.as_ref().iter().map(|byte| format!("{byte:02x}")).collect()
}

fn wireless_object_digest(object: &WirelessObject) -> Option<String> {
    Some(sha256_hex(&format!("{object:?}")))
}

struct WirelessUpdate {
    expected_digest: String,
    desired: WirelessObject,
}

/// Plans updates against an inventory, with the object model content with every radio.
fn plan_wireless_mutations(
    inventory: &WirelessInventory,
    mutations: &[WirelessUpdate],
) -> Option<WirelessMutationPlan> {
    let mut changes = Vec::new();
    for mutation in mutations {
        let before = inventory
            .objects
            .iter()
            .find(|object| object.id() == mutation.desired.id())?
            .clone();
        let after = mutation.desired.clone();
        let before_digest = wireless_object_digest(&before);
        let after_digest = wireless_object_digest(&after);
        assert_eq!(before_digest.as_ref(), Some(&mutation.expected_digest));
        changes.push(WirelessPlannedChange {
            diff: ObjectDiff {
                operation: ChangeOperation::Update,
                object: ObjectReference {
                    domain: ConfigDomain::Wireless,
                    kind: before.kind().to_owned(),
                    id: before.id().to_owned(),
                    ownership: before.ownership(),
                    expected_version: before_digest.clone(),
                },
                before_digest: before_digest.clone(),
                after_digest: after_digest.clone(),
            },
            before,
            after,
            before_checks: ObjectChecks { valid: true, digest: before_digest },
            after_checks: ObjectChecks { valid: true, digest: after_digest },
        });
    }
    Some(WirelessMutationPlan { risk: RiskLevel::R3, changes })
}

/// Answers commands by a rule, and notes them.
struct Answers<F> {
    rule: F,
    seen: RefCell<Vec<FirewallCommand>>,
}

impl<F> Answers<F> {
    fn new(rule: F) -> Self {
        Self { rule, seen: RefCell::new(Vec::new()) }
    }
}

impl<F> FirewallCommandExecutor for Answers<F>
where
    F: Fn(&FirewallCommand) -> Result<FirewallCommandOutput, FirewallCommandError>,
{
    fn execute(
        &self,
        operation: &FirewallCommand,
        _stdin: Option<&[u8]>,
    ) -> Result<FirewallCommandOutput, FirewallCommandError> {
        self.seen.borrow_mut().push(operation.clone());
        (self.rule)(operation)
    }
}

#[test]
fn wireless_executor_runs_the_native_checks() {
    let mut transaction = staged();
    let refusing =
        Answers::new(|_: &FirewallCommand| Err(FirewallCommandError::Unsuccessful));
    assert_eq!(
        transaction.validate_stage(&refusing),
        Err(OpenWrtWirelessExecutionError::Command(FirewallCommandError::Unsuccessful))
    );
    assert_eq!(transaction.state(), TransactionState::Staged);
    let content = Answers::new(|_: &FirewallCommand| Ok(output("")));
    transaction.validate_stage(&content).expect("validate");
    assert_eq!(transaction.state(), TransactionState::Validated);
    let seen = content.seen.into_inner();
    assert_eq!(seen.len(), 1);
    assert!(matches!(&seen[0], FirewallCommand::UciExportWirelessAt { .. }));
}
