//! Inspection and rendering of radios.

use platform_linux::change::{
    ChangeOperation, ConfigDomain, ObjectChecks, ObjectDiff, ObjectReference, RiskLevel,
};
use platform_linux::platform::{
    FirewallBackend, FirewallCapabilities, InitSystem, NetworkDeviceModel, PackageManager,
    PlatformCapabilities, PlatformKind,
};
use platform_linux::wireless_model::{
    WirelessBand, WirelessChannel, WirelessChannelWidth, WirelessInventory, WirelessMutationPlan,
    WirelessObject, WirelessPlannedChange, WirelessRadioConfig,
};
use platform_linux::wireless_openwrt::{
    decode_htmode, encode_htmode, inspect_openwrt_wireless_inventory,
    render_openwrt_wireless_stage_from_snapshot, select_openwrt_wireless_staging,
    wireless_candidates, OpenWrtWirelessBandEncoding, OpenWrtWirelessHtModeFamily,
    OpenWrtWirelessInventorySnapshot, WirelessRenderError,
};

/// The object model is content with everything.
const VALID: [bool; 64] = [true; 64];
const OPENWRT_21_WIRELESS: &str = "wireless.radio0=wifi-device\n\
     wireless.radio0.type='mac80211'\n\
     wireless.radio0.path='platform/ahb/18100000.wmac'\n\
     wireless.radio0.hwmode='11a'\n\
     wireless.radio0.channel='36'\n\
     wireless.radio0.htmode='VHT80'\n\
     wireless.radio0.country='CN'\n\
     wireless.radio0.txpower='20'\n\
     wireless.default_radio0=wifi-iface\n\
     wireless.default_radio0.device='radio0'\n\
     wireless.default_radio0.network='lan'\n\
     wireless.default_radio0.mode='ap'\n\
     wireless.default_radio0.ssid='private-name'\n\
     wireless.default_radio0.encryption='psk2'\n\
     wireless.default_radio0.key='must-not-enter-inventory'\n";

fn radio_config(object: &mut WirelessObject) -> &mut WirelessRadioConfig {
    let WirelessObject::Radio(value) = object;
    value
}

fn update_plan(
    snapshot: &OpenWrtWirelessInventorySnapshot,
    update: impl FnOnce(&mut WirelessRadioConfig),
) -> WirelessMutationPlan {
    let before = snapshot.inventory().objects[0].clone();
    let mut after = before.clone();
    update(radio_config(&mut after));
    plan_wireless_mutations(
        snapshot.inventory(),
        &[WirelessUpdate {
            expected_digest: wireless_object_digest(&before).expect("digest"),
            desired: after,
        }])
    .expect("plan")
}

#[test]
fn reconstructs_legacy_hwmode_radio_without_ssid_or_key() {
    let snapshot = inspect_openwrt_wireless_inventory(OPENWRT_21_WIRELESS, &VALID).expect("inspect");
    assert_eq!(snapshot.inventory().objects.len(), 1);
    assert_eq!(snapshot.bindings().len(), 1);
    assert_eq!(snapshot.read_only_sections(), ["default_radio0"]);
    assert_eq!(
        snapshot.bindings()[0].band_encoding,
        OpenWrtWirelessBandEncoding::HwMode
    );
    let WirelessObject::Radio(radio) = &snapshot.inventory().objects[0];
    assert_eq!(radio.id, "radio0");
    assert_eq!(radio.band, WirelessBand::Ghz5);
    assert_eq!(radio.channel, WirelessChannel::Fixed { channel: 36 });
    assert_eq!(radio.width, WirelessChannelWidth::Mhz80);
    let encoded = format!("{:?}", snapshot.inventory());
    assert!(!encoded.contains("private-name"));
    assert!(!encoded.contains("must-not-enter-inventory"));
}

#[test]
fn stages_exact_radio_update_and_preserves_unknown_device_options() {
    let snapshot = inspect_openwrt_wireless_inventory(OPENWRT_21_WIRELESS, &VALID).expect("inspect");
    let plan = update_plan(&snapshot, |radio| {
        radio.channel = WirelessChannel::Fixed { channel: 40 };
        radio.country = Some("US".into());
        radio.tx_power_dbm = None;
    });
    let stage = render_openwrt_wireless_stage_from_snapshot(&plan, &snapshot).expect("stage");
    assert!(stage.uci_batch.contains("delete wireless.radio0.channel"));
    assert!(stage.uci_batch.contains("set wireless.radio0.channel='40'"));
    assert!(stage.uci_batch.contains("set wireless.radio0.hwmode='11a'"));
    assert!(
        stage
            .uci_batch
            .contains("set wireless.radio0.htmode='VHT80'")
    );
    assert!(!stage.uci_batch.contains("set wireless.radio0.txpower"));
    assert!(!stage.uci_batch.contains("delete wireless.radio0.path"));
    assert!(!stage.uci_batch.contains("default_radio0"));
    assert_eq!(stage.activation_program, "/sbin/wifi");
    assert_eq!(stage.activation_argument, "reload");
}

#[test]
fn modern_band_and_he_width_round_trip() {
    let input = "wireless.radio1=wifi-device\n\
        wireless.radio1.type='mac80211'\n\
        wireless.radio1.band='6g'\n\
        wireless.radio1.channel='auto'\n\
        wireless.radio1.htmode='HE160'\n\
        wireless.radio1.disabled='1'\n";
    let snapshot = inspect_openwrt_wireless_inventory(input, &VALID).expect("inspect");
    let WirelessObject::Radio(radio) = &snapshot.inventory().objects[0];
    assert_eq!(radio.band, WirelessBand::Ghz6);
    assert_eq!(radio.channel, WirelessChannel::Auto);
    assert_eq!(radio.width, WirelessChannelWidth::Mhz160);
    assert!(!radio.enabled);
    let plan = update_plan(&snapshot, |radio| {
        radio.enabled = true;
        radio.width = WirelessChannelWidth::Mhz80;
    });
    let stage = render_openwrt_wireless_stage_from_snapshot(&plan, &snapshot).expect("stage");
    assert!(stage.uci_batch.contains("set wireless.radio1.band='6g'"));
    assert!(
        stage
            .uci_batch
            .contains("set wireless.radio1.htmode='HE80'")
    );
    assert!(stage.uci_batch.contains("set wireless.radio1.disabled='0'"));
}

#[test]
fn ambiguous_or_vendor_radio_is_read_only() {
    let input = "wireless.radio0=wifi-device\n\
        wireless.radio0.type='mac80211'\n\
        wireless.radio0.band='5g'\n\
        wireless.radio0.hwmode='11a'\n\
        wireless.radio0.channel='36'\n\
        wireless.radio1=wifi-device\n\
        wireless.radio1.type='vendor-driver'\n\
        wireless.radio1.band='2g'\n";
    let snapshot = inspect_openwrt_wireless_inventory(input, &VALID).expect("inspect");
    assert!(snapshot.inventory().objects.is_empty());
    assert_eq!(snapshot.read_only_sections(), ["radio0", "radio1"]);
}

#[test]
fn rejects_backend_incompatible_band_or_width_changes() {
    let snapshot = inspect_openwrt_wireless_inventory(OPENWRT_21_WIRELESS, &VALID).expect("inspect");
    let invalid_band = update_plan(&snapshot, |radio| {
        radio.band = WirelessBand::Ghz2;
        radio.width = WirelessChannelWidth::Mhz40;
        radio.channel = WirelessChannel::Fixed { channel: 6 };
    });
    assert_eq!(
        render_openwrt_wireless_stage_from_snapshot(&invalid_band, &snapshot),
        Err(WirelessRenderError::UnsupportedSemantics)
    );

    let narrow_input = OPENWRT_21_WIRELESS.replace("VHT80", "HT20");
    let narrow = inspect_openwrt_wireless_inventory(&narrow_input, &VALID).expect("inspect");
    let invalid_width = update_plan(&narrow, |radio| radio.width = WirelessChannelWidth::Mhz80);
    assert_eq!(
        render_openwrt_wireless_stage_from_snapshot(&invalid_width, &narrow),
        Err(WirelessRenderError::UnsupportedSemantics)
    );
}

#[test]
fn rejects_stale_plan_or_tampered_binding() {
    let snapshot = inspect_openwrt_wireless_inventory(OPENWRT_21_WIRELESS, &VALID).expect("inspect");
    let plan = update_plan(&snapshot, |radio| radio.enabled = false);
    let mut stale = snapshot.clone();
    radio_config(&mut stale.inventory.objects[0]).channel =
        WirelessChannel::Fixed { channel: 44 };
    assert_eq!(
        render_openwrt_wireless_stage_from_snapshot(&plan, &stale),
        Err(WirelessRenderError::PlanMismatch)
    );

    let mut tampered = snapshot.clone();
    tampered.bindings[0].section = "radio1".into();
    assert_eq!(
        render_openwrt_wireless_stage_from_snapshot(&plan, &tampered),
        Err(WirelessRenderError::UnsafeBinding)
    );
}

fn sha256_hex(text: &str) -> String {
    let digest = ring::digest::digest(&ring::digest::SHA256, text.as_bytes());
    digest.as_ref().iter().map(|byte| format!("{byte:02x}")).collect()
}

fn wireless_object_digest(object: &WirelessObject) -> Option<String> {
    Some(sha256_hex(&format!("{object:?}")))
}

struct WirelessUpdate {
    expected_digest: String,
    desired: WirelessObject,
}

/// Plans updates against an inventory, with the object model content with every radio.
fn plan_wireless_mutations(
    inventory: &WirelessInventory,
    mutations: &[WirelessUpdate],
) -> Option<WirelessMutationPlan> {
    let mut changes = Vec::new();
    for mutation in mutations {
        let before = inventory
            .objects
            .iter()
            .find(|object| object.id() == mutation.desired.id())?
            .clone();
        let after = mutation.desired.clone();
        let before_digest = wireless_object_digest(&before);
        let after_digest = wireless_object_digest(&after);
        assert_eq!(before_digest.as_ref(), Some(&mutation.expected_digest));
        changes.push(WirelessPlannedChange {
            diff: ObjectDiff {
                operation: ChangeOperation::Update,
                object: ObjectReference {
                    domain: ConfigDomain::Wireless,
                    kind: before.kind().to_owned(),
                    id: before.id().to_owned(),
                    ownership: before.ownership(),
                    expected_version: before_digest.clone(),
                },
                before_digest: before_digest.clone(),
                after_digest: after_digest.clone(),
            },
            before,
            after,
            before_checks: ObjectChecks { valid: true, digest: before_digest },
            after_checks: ObjectChecks { valid: true, digest: after_digest },
        });
    }
    Some(WirelessMutationPlan { risk: RiskLevel::R3, changes })
}

/// What a package shows once a batch was applied to what it showed before.
fn shown(before: &str, batch: &str) -> String {
    let mut entries: Vec<(String, String)> = before
        .lines()
        .filter_map(|line| line.trim().split_once('='))
        .map(|(key, value)| (key.to_owned(), value.to_owned()))
        .collect();
    let section = |key: &str| key.split('.').take(2).collect::<Vec<_>>().join(".");
    for line in batch.lines() {
        let (verb, rest) = line.split_once(' ').expect("command");
        match verb {
            "delete" => {
                let below = format!("{rest}.");
                entries.retain(|(key, _)| key != rest && !key.starts_with(&below));
            }
            "set" | "add_list" => {
                let (key, value) = rest.split_once('=').expect("assignment");
                if let Some(found) = entries.iter_mut().find(|(name, _)| name == key) {
                    assert_eq!(verb, "add_list");
                    found.1 = format!("{} {value}", found.1);
                } else {
                    let at = entries
                        .iter()
                        .rposition(|(name, _)| section(name) == section(key))
                        .map_or(entries.len(), |index| index + 1);
                    entries.insert(at, (key.to_owned(), value.to_owned()));
                }
            }
            _ => assert_eq!(verb, "commit"),
        }
    }
    entries.iter().map(|(key, value)| format!("{key}={value}\n")).collect()
}

#[test]
fn written_radio_is_read_back() {
    let snapshot =
        inspect_openwrt_wireless_inventory(OPENWRT_21_WIRELESS, &VALID).expect("inspect");
    let plan = update_plan(&snapshot, |radio| {
        radio.enabled = false;
        radio.band = WirelessBand::Ghz5;
        radio.channel = WirelessChannel::Fixed { channel: 149 };
        radio.width = WirelessChannelWidth::Mhz160;
        radio.country = Some("US".into());
        radio.tx_power_dbm = Some(17);
    });
    let stage = render_openwrt_wireless_stage_from_snapshot(&plan, &snapshot).expect("stage");
    let text = shown(OPENWRT_21_WIRELESS, &stage.uci_batch);
    let after = inspect_openwrt_wireless_inventory(&text, &VALID).expect("inspect again");
    assert_eq!(after.inventory().objects[0], plan.changes[0].after);
    assert_eq!(after.bindings()[0].band_encoding, OpenWrtWirelessBandEncoding::HwMode);
    assert_eq!(after.read_only_sections(), snapshot.read_only_sections());
    assert!(text.contains("wireless.radio0.path='platform/ahb/18100000.wmac'\n"));
}

#[test]
fn every_wireless_section_is_accounted_for() {
    let snapshot =
        inspect_openwrt_wireless_inventory(OPENWRT_21_WIRELESS, &VALID).expect("inspect");
    let mut sections: Vec<&str> =
        snapshot.bindings().iter().map(|binding| binding.section.as_str()).collect();
    sections.extend(snapshot.read_only_sections().iter().map(String::as_str));
    assert_eq!(sections, ["radio0", "default_radio0"]);
}

#[test]
fn radio_is_read_from_its_own_options() {
    let more = OPENWRT_21_WIRELESS.replace(
        "wireless.radio0.type='mac80211'\n",
        "wireless.radio0.type='mac80211'\nwireless.radio0.noscan='1'\nwireless.radio0.cell_density='3'\n",
    );
    let plain = inspect_openwrt_wireless_inventory(OPENWRT_21_WIRELESS, &VALID).expect("plain");
    let extended = inspect_openwrt_wireless_inventory(&more, &VALID).expect("extended");
    assert_eq!(plain.inventory(), extended.inventory());
    assert_ne!(plain.bindings()[0].present_options, extended.bindings()[0].present_options);
    let candidates = wireless_candidates(&more).expect("candidates");
    assert_eq!(candidates.len(), 2);
    assert_eq!(candidates[0].object.as_ref(), Some(&extended.inventory().objects[0]));
    assert_eq!(candidates[1].object, None);
}

#[test]
fn selects_wireless_staging_for_supported_releases_only() {
    let mut capabilities = PlatformCapabilities {
        kind: PlatformKind::OpenWrt,
        release: Some("21.02.7".into()),
        release_supported: true,
        firewall: FirewallCapabilities {
            backend: FirewallBackend::Fw3,
            has_iptables_save: true,
            has_ip6tables_save: true,
            has_nft: false,
            can_trace: false,
        },
        device_model: NetworkDeviceModel::Dsa,
        package_manager: PackageManager::Opkg,
        init_system: InitSystem::Procd,
        has_ubus: true,
        has_uci: true,
        has_procd: true,
        available_commands: vec!["uci".into(), "ubus".into()],
        warnings: Vec::new(),
    };
    assert_eq!(select_openwrt_wireless_staging(&capabilities), Ok(()));
    capabilities.release_supported = false;
    assert_eq!(
        select_openwrt_wireless_staging(&capabilities),
        Err(WirelessRenderError::BackendUnavailable)
    );
    capabilities.release_supported = true;
    capabilities.available_commands.clear();
    capabilities.has_uci = false;
    assert_eq!(
        select_openwrt_wireless_staging(&capabilities),
        Err(WirelessRenderError::BackendUnavailable)
    );
}

#[test]
fn a_written_mode_is_read_back_with_its_family() {
    let cases = [
        ("6g", Some("HE160"), OpenWrtWirelessHtModeFamily::He),
        ("5g", Some("VHT20"), OpenWrtWirelessHtModeFamily::Vht),
        ("5g", None, OpenWrtWirelessHtModeFamily::Vht),
        ("2g", None, OpenWrtWirelessHtModeFamily::Ht),
    ];
    for (band, mode, family) in cases {
        let mut input = format!(
            "wireless.radio1=wifi-device\nwireless.radio1.type='mac80211'\n\
             wireless.radio1.band='{band}'\nwireless.radio1.channel='auto'\n"
        );
        if let Some(mode) = mode {
            input.push_str(&format!("wireless.radio1.htmode='{mode}'\n"));
        }
        let snapshot = inspect_openwrt_wireless_inventory(&input, &VALID).expect("inspect");
        let WirelessObject::Radio(before) = &snapshot.inventory().objects[0];
        let mut after = before.clone();
        after.width = WirelessChannelWidth::Mhz40;
        let written = encode_htmode(&snapshot.bindings()[0], before, &after)
            .expect("mode")
            .expect("written");
        assert_eq!(decode_htmode(&written), Some((WirelessChannelWidth::Mhz40, family)));
    }
    assert_eq!(decode_htmode("HT30"), None);
}
