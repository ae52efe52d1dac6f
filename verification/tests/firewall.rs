//! Rendering of the firewall package.

use platform_linux::change::{
    ChangeOperation, ConfigDomain, ObjectChecks, ObjectDiff, ObjectOwnership, ObjectReference,
    RiskLevel,
};
use platform_linux::firewall::{
    inspect_openwrt_object_bindings, render_openwrt_firewall_stage,
    render_openwrt_firewall_stage_from_snapshot, select_firewall_write_backend,
    FirewallWriteBackend, OpenWrtValidation,
};
use platform_linux::firewall_error::FirewallRenderError;
use platform_linux::firewall_inventory::{inspect_openwrt_firewall_inventory, OpenWrtObjectBinding};
use platform_linux::firewall_model::{
    FirewallAddressSet, FirewallConntrackState, FirewallDirection, FirewallFamily,
    FirewallFilterRule, FirewallForwarding, FirewallInventory, FirewallLog, FirewallLogLevel,
    FirewallMatch, FirewallMutationPlan, FirewallNatKind, FirewallNatRule, FirewallObject,
    FirewallPlannedChange, FirewallProtocol, FirewallRateLimit, FirewallSetEntry, FirewallVerdict,
    FirewallZone, PortRange,
};
use platform_linux::net::{IpAddr, IpNetwork};
use platform_linux::platform::{
    FirewallBackend, FirewallCapabilities, InitSystem, NetworkDeviceModel, PackageManager,
    PlatformCapabilities, PlatformKind,
};

/// The object model is content with everything.
const VALID: [bool; 64] = [true; 64];
#[test]
fn selects_only_complete_platform_write_capabilities() {
    let mut openwrt = platform(
        PlatformKind::OpenWrt,
        FirewallBackend::Fw3,
        &["uci", "fw3", "iptables-save"],
    );
    assert_eq!(
        select_firewall_write_backend(&openwrt),
        Ok(FirewallWriteBackend::OpenWrtFw3)
    );

    openwrt.firewall.backend = FirewallBackend::Fw4;
    openwrt.available_commands = strings(&["uci", "fw4"]);
    assert_eq!(
        select_firewall_write_backend(&openwrt),
        Err(FirewallRenderError::BackendUnavailable)
    );
    openwrt.available_commands.push("nft".into());
    assert_eq!(
        select_firewall_write_backend(&openwrt),
        Ok(FirewallWriteBackend::OpenWrtFw4)
    );

    let linux = platform(
        PlatformKind::GenericLinux,
        FirewallBackend::Iptables,
        &[
            "iptables-save",
            "ip6tables-save",
            "iptables-restore",
            "ip6tables-restore",
        ],
    );
    assert_eq!(
        select_firewall_write_backend(&linux),
        Ok(FirewallWriteBackend::LinuxIptables)
    );
}

#[test]
fn fw3_renders_bounded_mac_network_and_port_rule() {
    let object = FirewallObject::FilterRule(FirewallFilterRule {
        id: "block-camera".into(),
        ownership: ObjectOwnership::AgentOwned,
        enabled: true,
        direction: FirewallDirection::Forward,
        matches: FirewallMatch {
            family: FirewallFamily::Ipv4,
            source_zones: vec!["lan".into()],
            destination_zones: vec!["wan".into()],
            source_networks: vec![network4([192, 168, 8, 0], 24)],
            source_macs: vec!["aa:bb:cc:dd:ee:ff".into()],
            protocols: vec![FirewallProtocol::Tcp, FirewallProtocol::Udp],
            destination_ports: vec![PortRange {
                start: 443,
                end: 445,
            }],
            ..FirewallMatch::default()
        },
        verdict: FirewallVerdict::Drop,
        reject_with: None,
        rate_limit: None,
        log: None,
        order: 20,
    });
    let plan = create_plan(&base_inventory(), vec![object]);
    let stage =
        render_openwrt_firewall_stage(&plan, &vec![], FirewallBackend::Fw3).expect("render fw3");

    assert_eq!(
        stage.validations,
        vec![
            OpenWrtValidation::Fw3PrintIpv4,
            OpenWrtValidation::Fw3PrintIpv6
        ]
    );
    assert!(stage.uci_batch.contains("set firewall.mbed_r_"));
    assert!(stage.uci_batch.contains(".src='lan'"));
    assert!(stage.uci_batch.contains(".dest='wan'"));
    assert!(stage.uci_batch.contains(".proto='tcp udp'"));
    assert!(stage.uci_batch.contains(".src_ip='192.168.8.0/24'"));
    assert!(stage.uci_batch.contains(".src_mac='aa:bb:cc:dd:ee:ff'"));
    assert!(stage.uci_batch.contains(".dest_port='443-445'"));
    assert!(stage.uci_batch.ends_with("commit firewall\n"));
}

#[test]
fn fw4_renders_address_set_and_reference_without_fw3_storage() {
    let set = FirewallObject::AddressSet(FirewallAddressSet {
        id: "blocked-nets".into(),
        ownership: ObjectOwnership::AgentOwned,
        enabled: true,
        family: FirewallFamily::Ipv4,
        entries: vec![
            FirewallSetEntry::Network(network4([198, 51, 100, 0], 24)),
            FirewallSetEntry::Network(network4([203, 0, 113, 0], 24)),
        ],
    });
    let rule = FirewallObject::FilterRule(FirewallFilterRule {
        id: "block-set".into(),
        ownership: ObjectOwnership::AgentOwned,
        enabled: true,
        direction: FirewallDirection::Input,
        matches: FirewallMatch {
            family: FirewallFamily::Ipv4,
            source_zones: vec!["wan".into()],
            source_sets: vec!["blocked-nets".into()],
            ..FirewallMatch::default()
        },
        verdict: FirewallVerdict::Drop,
        reject_with: None,
        rate_limit: None,
        log: None,
        order: 30,
    });
    let plan = create_plan(&base_inventory(), vec![set, rule]);
    let stage =
        render_openwrt_firewall_stage(&plan, &vec![], FirewallBackend::Fw4).expect("render fw4");

    assert_eq!(stage.validations, vec![OpenWrtValidation::Fw4Check]);
    assert!(stage.uci_batch.contains("=ipset\n"));
    assert!(stage.uci_batch.contains(".match='src_net'"));
    assert!(stage.uci_batch.contains(".entry='198.51.100.0/24'"));
    assert!(stage.uci_batch.contains(".ipset='blocked-nets src'"));
    assert!(!stage.uci_batch.contains(".storage="));
}

#[test]
fn fresh_snapshot_reserves_even_a_conflicting_existing_managed_section() {
    let desired = FirewallObject::FilterRule(FirewallFilterRule {
        id: "new-rule".into(),
        ownership: ObjectOwnership::AgentOwned,
        enabled: true,
        direction: FirewallDirection::Input,
        matches: FirewallMatch::default(),
        verdict: FirewallVerdict::Drop,
        reject_with: None,
        rate_limit: None,
        log: None,
        order: 10,
    });
    let digest = firewall_object_digest(&desired).expect("digest");
    let section = format!("mbed_r_{}", &digest[..16]);
    let show = format!(
        "firewall.{section}=rule\n\
         firewall.{section}.name='existing-rule'\n\
         firewall.{section}.enabled='1'\n\
         firewall.{section}.family='any'\n\
         firewall.{section}.target='DROP'\n"
    );
    let snapshot = inspect_openwrt_firewall_inventory(&show, &VALID).expect("fresh snapshot");
    let plan = plan_firewall_mutations(
        snapshot.inventory(),
        &[FirewallMutation::Create(desired)])
    .expect("plan");
    assert_eq!(
        render_openwrt_firewall_stage_from_snapshot(&plan, &snapshot, FirewallBackend::Fw4),
        Err(FirewallRenderError::DuplicateSection)
    );
    let mut forged = plan;
    forged.changes[0].diff.after_digest = Some("f".repeat(64));
    assert_eq!(
        render_openwrt_firewall_stage_from_snapshot(&forged, &snapshot, FirewallBackend::Fw4),
        Err(FirewallRenderError::PlanMismatch)
    );
}

#[test]
fn updates_anonymous_zone_without_deleting_unknown_options() {
    let inventory = base_inventory();
    let before = inventory.objects[0].clone();
    let mut after = before.clone();
    let FirewallObject::Zone(zone) = &mut after else {
        panic!("zone fixture");
    };
    zone.input = FirewallVerdict::Drop;
    zone.networks.push("guest".into());
    let plan = plan_firewall_mutations(
        &inventory,
        &[FirewallMutation::Update {
            expected_digest: firewall_object_digest(&before).expect("digest"),
            desired: after,
        }])
    .expect("plan");
    let binding = OpenWrtObjectBinding {
        kind: "zone".into(),
        id: "lan".into(),
        section_type: "zone".into(),
        section: "@zone[0]".into(),
        present_options: strings(&["name", "network", "input", "vendor_extension"]),
    };
    let stage =
        render_openwrt_firewall_stage(&plan, &vec![binding], FirewallBackend::Fw4).expect("render");

    assert!(stage.uci_batch.contains("delete firewall.@zone[0].network"));
    assert!(stage.uci_batch.contains("delete firewall.@zone[0].input"));
    assert!(!stage.uci_batch.contains("delete firewall.@zone[0].vendor"));
    assert!(
        stage
            .uci_batch
            .contains("add_list firewall.@zone[0].network='guest'")
    );
}

#[test]
fn resolves_bindings_from_fresh_uci_show_and_typed_inventory() {
    let mut inventory = base_inventory();
    inventory
        .objects
        .push(FirewallObject::FilterRule(FirewallFilterRule {
            id: "platform-rule-0".into(),
            ownership: ObjectOwnership::PlatformNative,
            enabled: true,
            direction: FirewallDirection::Input,
            matches: FirewallMatch::default(),
            verdict: FirewallVerdict::Drop,
            reject_with: None,
            rate_limit: None,
            log: None,
            order: 1,
        }));
    let show = "\
firewall.@defaults[0]=defaults
firewall.@defaults[0].input='REJECT'
firewall.custom_include=include
firewall.custom_include.path='/etc/firewall.user'
firewall.@zone[0]=zone
firewall.@zone[0].name='lan'
firewall.@zone[0].network='lan' 'guest'
firewall.wan=zone
firewall.wan.name='wan'
firewall.wan.network='wan'
firewall.@forwarding[0]=forwarding
firewall.@forwarding[0].src='lan'
firewall.@forwarding[0].dest='wan'
firewall.@rule[0]=rule
firewall.@rule[0].target='DROP'
";
    let bindings = inspect_openwrt_object_bindings(show, &inventory, &VALID).expect("inspect bindings");

    assert_eq!(bindings.len(), 4);
    let lan = bindings
        .iter()
        .find(|binding| binding.id == "lan")
        .expect("lan binding");
    assert_eq!(lan.section, "@zone[0]");
    assert_eq!(
        lan.present_options,
        strings(&["name", "network"]),
        "option names are deterministic"
    );
    assert!(
        bindings
            .iter()
            .any(|binding| binding.id == "lan-wan" && binding.section == "@forwarding[0]")
    );
    assert!(
        bindings
            .iter()
            .any(|binding| binding.id == "platform-rule-0" && binding.section == "@rule[0]")
    );
}

#[test]
fn fails_closed_on_ambiguous_or_malformed_uci_inventory() {
    let ambiguous = "\
firewall.@forwarding[0]=forwarding
firewall.@forwarding[0].src='lan'
firewall.@forwarding[0].dest='wan'
firewall.@forwarding[1]=forwarding
firewall.@forwarding[1].src='lan'
firewall.@forwarding[1].dest='wan'
";
    let inventory = FirewallInventory {
        objects: vec![base_inventory().objects[2].clone()],
    };
    assert_eq!(
        inspect_openwrt_object_bindings(ambiguous, &inventory, &VALID),
        Err(FirewallRenderError::AmbiguousBinding)
    );
    assert_eq!(
        inspect_openwrt_object_bindings(
            "firewall.@zone[0];delete=zone\n",
            &FirewallInventory { objects: vec![] },
            &VALID
        ),
        Err(FirewallRenderError::MalformedUci)
    );
}

#[test]
fn rejects_injected_or_wrong_type_section_bindings() {
    let before = base_inventory().objects[0].clone();
    let plan = delete_plan(&FirewallInventory {
        objects: vec![before.clone()],
    });
    let injected = OpenWrtObjectBinding {
        kind: "zone".into(),
        id: "lan".into(),
        section_type: "zone".into(),
        section: "@zone[0];delete firewall".into(),
        present_options: vec![],
    };
    assert_eq!(
        render_openwrt_firewall_stage(&plan, &vec![injected], FirewallBackend::Fw4),
        Err(FirewallRenderError::UnsafeBinding)
    );
    let wrong_type = OpenWrtObjectBinding {
        kind: "zone".into(),
        id: "lan".into(),
        section_type: "rule".into(),
        section: "@rule[0]".into(),
        present_options: vec![],
    };
    assert_eq!(
        render_openwrt_firewall_stage(&plan, &vec![wrong_type], FirewallBackend::Fw4),
        Err(FirewallRenderError::UnsafeBinding)
    );
}

#[test]
fn renders_destination_and_source_nat_as_distinct_uci_sections() {
    let destination = FirewallObject::NatRule(FirewallNatRule {
        id: "https-to-server".into(),
        ownership: ObjectOwnership::AgentOwned,
        enabled: true,
        kind: FirewallNatKind::DestinationNat,
        matches: FirewallMatch {
            family: FirewallFamily::Ipv4,
            source_zones: vec!["wan".into()],
            destination_zones: vec!["lan".into()],
            protocols: vec![FirewallProtocol::Tcp],
            destination_ports: vec![PortRange {
                start: 8443,
                end: 8443,
            }],
            ..FirewallMatch::default()
        },
        translation_address: Some(IpAddr::v4(192, 168, 1, 10)),
        translation_port: Some(PortRange {
            start: 443,
            end: 443,
        }),
        order: 40,
    });
    let source = FirewallObject::NatRule(FirewallNatRule {
        id: "service-snat".into(),
        ownership: ObjectOwnership::AgentOwned,
        enabled: true,
        kind: FirewallNatKind::SourceNat,
        matches: FirewallMatch {
            family: FirewallFamily::Ipv4,
            source_zones: vec!["lan".into()],
            source_networks: vec![network4([192, 168, 1, 0], 24)],
            ..FirewallMatch::default()
        },
        translation_address: Some(IpAddr::v4(203, 0, 113, 8)),
        translation_port: None,
        order: 50,
    });
    let plan = create_plan(&base_inventory(), vec![destination, source]);
    let stage =
        render_openwrt_firewall_stage(&plan, &vec![], FirewallBackend::Fw4).expect("render NAT");

    assert!(stage.uci_batch.contains("=redirect\n"));
    assert!(stage.uci_batch.contains(".src_dport='8443'"));
    assert!(stage.uci_batch.contains(".dest_ip='192.168.1.10'"));
    assert!(stage.uci_batch.contains(".dest_port='443'"));
    assert!(stage.uci_batch.contains("=nat\n"));
    assert!(stage.uci_batch.contains(".snat_ip='203.0.113.8'"));
    assert!(stage.uci_batch.contains(".target='SNAT'"));
}

#[test]
fn rejects_semantics_that_uci_cannot_preserve() {
    let object = FirewallObject::FilterRule(FirewallFilterRule {
        id: "stateful".into(),
        ownership: ObjectOwnership::AgentOwned,
        enabled: true,
        direction: FirewallDirection::Input,
        matches: FirewallMatch {
            family: FirewallFamily::Ipv4,
            conntrack_states: vec![FirewallConntrackState::New],
            ..FirewallMatch::default()
        },
        verdict: FirewallVerdict::Drop,
        reject_with: None,
        rate_limit: None,
        log: None,
        order: 60,
    });
    let plan = create_plan(&base_inventory(), vec![object]);
    assert_eq!(
        render_openwrt_firewall_stage(&plan, &vec![], FirewallBackend::Fw4),
        Err(FirewallRenderError::UnsupportedField(
            "conntrack state requires an unmanaged raw expression"
        ))
    );
}

#[test]
fn move_uses_only_the_fresh_bound_section() {
    let before = FirewallObject::FilterRule(FirewallFilterRule {
        id: "ordered".into(),
        ownership: ObjectOwnership::AgentOwned,
        enabled: true,
        direction: FirewallDirection::Input,
        matches: FirewallMatch::default(),
        verdict: FirewallVerdict::Drop,
        reject_with: None,
        rate_limit: None,
        log: None,
        order: 10,
    });
    let mut after = before.clone();
    let FirewallObject::FilterRule(rule) = &mut after else {
        panic!("rule fixture");
    };
    rule.order = 3;
    let inventory = FirewallInventory {
        objects: vec![before.clone()],
    };
    let plan = plan_firewall_mutations(
        &inventory,
        &[FirewallMutation::Move {
            expected_digest: firewall_object_digest(&before).expect("digest"),
            desired: after,
        }])
    .expect("plan move");
    let binding = OpenWrtObjectBinding {
        kind: "filter_rule".into(),
        id: "ordered".into(),
        section_type: "rule".into(),
        section: "@rule[2]".into(),
        present_options: vec![],
    };
    let stage =
        render_openwrt_firewall_stage(&plan, &vec![binding], FirewallBackend::Fw3).expect("render");
    assert_eq!(
        stage.uci_batch,
        "reorder firewall.@rule[2]=3\ncommit firewall\n"
    );
}

fn create_plan(
    inventory: &FirewallInventory,
    objects: Vec<FirewallObject>,
) -> FirewallMutationPlan {
    let mutations: Vec<FirewallMutation> =
        objects.into_iter().map(FirewallMutation::Create).collect();
    plan_firewall_mutations(inventory, &mutations)
        .expect("create plan")
}

fn delete_plan(inventory: &FirewallInventory) -> FirewallMutationPlan {
    let object = inventory.objects[0].clone();
    plan_firewall_mutations(
        inventory,
        &[FirewallMutation::Delete {
            kind: object.kind().into(),
            id: object.id().into(),
            expected_digest: firewall_object_digest(&object).expect("digest"),
        }])
    .expect("delete plan")
}

fn base_inventory() -> FirewallInventory {
    FirewallInventory {
        objects: vec![
            FirewallObject::Zone(FirewallZone {
                id: "lan".into(),
                ownership: ObjectOwnership::PlatformNative,
                enabled: true,
                networks: vec!["lan".into()],
                input: FirewallVerdict::Accept,
                output: FirewallVerdict::Accept,
                forward: FirewallVerdict::Accept,
                masquerade: false,
                mtu_fix: false,
            }),
            FirewallObject::Zone(FirewallZone {
                id: "wan".into(),
                ownership: ObjectOwnership::PlatformNative,
                enabled: true,
                networks: vec!["wan".into()],
                input: FirewallVerdict::Drop,
                output: FirewallVerdict::Accept,
                forward: FirewallVerdict::Drop,
                masquerade: true,
                mtu_fix: true,
            }),
            FirewallObject::Forwarding(FirewallForwarding {
                id: "lan-wan".into(),
                ownership: ObjectOwnership::PlatformNative,
                enabled: true,
                source_zone: "lan".into(),
                destination_zone: "wan".into(),
            }),
        ],
    }
}

fn network4(octets: [u8; 4], prefix_len: u8) -> IpNetwork {
    IpNetwork {
        address: IpAddr::v4(octets[0], octets[1], octets[2], octets[3]),
        prefix_len,
    }
}

fn strings(values: &[&str]) -> Vec<String> {
    values.iter().map(ToString::to_string).collect()
}

fn platform(
    kind: PlatformKind,
    backend: FirewallBackend,
    commands: &[&str],
) -> PlatformCapabilities {
    PlatformCapabilities {
        kind,
        release: None,
        release_supported: true,
        firewall: FirewallCapabilities {
            backend,
            has_iptables_save: commands.contains(&"iptables-save"),
            has_ip6tables_save: commands.contains(&"ip6tables-save"),
            has_nft: commands.contains(&"nft"),
            can_trace: false,
        },
        device_model: NetworkDeviceModel::Unknown,
        package_manager: PackageManager::Unknown,
        init_system: InitSystem::Unknown,
        has_ubus: false,
        has_uci: commands.contains(&"uci"),
        has_procd: false,
        available_commands: strings(commands),
        warnings: vec![],
    }
}

fn sha256_hex(text: &str) -> String {
    let digest = ring::digest::digest(&ring::digest::SHA256, text.as_bytes());
    digest.as_ref().iter().map(|byte| format!("{byte:02x}")).collect()
}

/// The changes that a planner takes.
#[allow(dead_code)]
enum FirewallMutation {
    Create(FirewallObject),
    Update { expected_digest: String, desired: FirewallObject },
    Move { expected_digest: String, desired: FirewallObject },
    Delete { kind: String, id: String, expected_digest: String },
}

fn firewall_object_digest(object: &FirewallObject) -> Option<String> {
    Some(sha256_hex(&format!("{object:?}")))
}

fn checks(object: &Option<FirewallObject>) -> ObjectChecks {
    ObjectChecks { valid: true, digest: object.as_ref().and_then(firewall_object_digest) }
}

/// Plans changes against an inventory, with the object model content with every object.
fn plan_firewall_mutations(inventory: &FirewallInventory, mutations: &[FirewallMutation]) -> Option<FirewallMutationPlan> {
    let find = |kind: &str, id: &str| {
        inventory
            .objects
            .iter()
            .find(|object| object.kind() == kind && object.id() == id)
            .cloned()
    };
    let mut changes = Vec::new();
    for mutation in mutations {
        let (operation, before, after) = match mutation {
            FirewallMutation::Create(object) => (ChangeOperation::Create, None, Some(object.clone())),
            FirewallMutation::Update { expected_digest, desired } => {
                let before = find(desired.kind(), desired.id())?;
                assert_eq!(firewall_object_digest(&before).as_ref(), Some(expected_digest));
                (ChangeOperation::Update, Some(before), Some(desired.clone()))
            }
            FirewallMutation::Move { expected_digest, desired } => {
                let before = find(desired.kind(), desired.id())?;
                assert_eq!(firewall_object_digest(&before).as_ref(), Some(expected_digest));
                (ChangeOperation::Move, Some(before), Some(desired.clone()))
            }
            FirewallMutation::Delete { kind, id, expected_digest } => {
                let before = find(kind, id)?;
                assert_eq!(firewall_object_digest(&before).as_ref(), Some(expected_digest));
                (ChangeOperation::Delete, Some(before), None)
            }
        };
        let before_checks = checks(&before);
        let after_checks = checks(&after);
        let subject = after.as_ref().or(before.as_ref())?;
        let diff = ObjectDiff {
            operation,
            object: ObjectReference {
                domain: ConfigDomain::Firewall,
                kind: subject.kind().to_owned(),
                id: subject.id().to_owned(),
                ownership: subject.ownership(),
                expected_version: before_checks.digest.clone(),
            },
            before_digest: before_checks.digest.clone(),
            after_digest: after_checks.digest.clone(),
        };
        changes.push(FirewallPlannedChange { before, after, diff, before_checks, after_checks });
    }
    Some(FirewallMutationPlan { risk: RiskLevel::R2, changes })
}

/// What a package shows once a batch was applied to what it showed before.
fn shown(before: &str, batch: &str) -> String {
    let mut entries: Vec<(String, String)> = before
        .lines()
        .filter_map(|line| line.trim().split_once('='))
        .map(|(key, value)| (key.to_owned(), value.to_owned()))
        .collect();
    let section = |key: &str| key.split('.').take(2).collect::<Vec<_>>().join(".");
    for line in batch.lines() {
        let (verb, rest) = line.split_once(' ').expect("command");
        match verb {
            "delete" => {
                let below = format!("{rest}.");
                entries.retain(|(key, _)| key != rest && !key.starts_with(&below));
            }
            "set" | "add_list" => {
                let (key, value) = rest.split_once('=').expect("assignment");
                if let Some(found) = entries.iter_mut().find(|(name, _)| name == key) {
                    assert_eq!(verb, "add_list");
                    found.1 = format!("{} {value}", found.1);
                } else {
                    let at = entries
                        .iter()
                        .rposition(|(name, _)| section(name) == section(key))
                        .map_or(entries.len(), |index| index + 1);
                    entries.insert(at, (key.to_owned(), value.to_owned()));
                }
            }
            _ => assert_eq!(verb, "commit"),
        }
    }
    entries.iter().map(|(key, value)| format!("{key}={value}\n")).collect()
}

#[test]
fn written_firewall_objects_are_read_back() {
    let owned = ObjectOwnership::AgentOwned;
    let objects = vec![
        FirewallObject::Zone(FirewallZone {
            id: "guest".into(),
            ownership: owned,
            enabled: true,
            networks: vec!["guest".into(), "guest6".into()],
            input: FirewallVerdict::Reject,
            output: FirewallVerdict::Accept,
            forward: FirewallVerdict::Drop,
            masquerade: true,
            mtu_fix: false,
        }),
        FirewallObject::Forwarding(FirewallForwarding {
            id: "guest-wan".into(),
            ownership: owned,
            enabled: false,
            source_zone: "guest".into(),
            destination_zone: "wan".into(),
        }),
        FirewallObject::AddressSet(FirewallAddressSet {
            id: "cameras".into(),
            ownership: owned,
            enabled: true,
            family: FirewallFamily::Any,
            entries: vec![
                FirewallSetEntry::Mac("aa:bb:cc:dd:ee:ff".into()),
                FirewallSetEntry::Mac("00:11:22:33:44:55".into()),
            ],
        }),
        FirewallObject::FilterRule(FirewallFilterRule {
            id: "block-cameras".into(),
            ownership: owned,
            enabled: true,
            direction: FirewallDirection::Forward,
            matches: FirewallMatch {
                family: FirewallFamily::Ipv4,
                source_zones: vec!["guest".into()],
                destination_zones: vec!["wan".into()],
                source_networks: vec![network4([192, 168, 8, 0], 24)],
                source_macs: vec!["aa:bb:cc:dd:ee:ff".into()],
                protocols: vec![FirewallProtocol::Tcp, FirewallProtocol::Icmpv6],
                destination_ports: vec![
                    PortRange { start: 443, end: 445 },
                    PortRange { start: 22, end: 22 },
                ],
                icmp_types: vec![8, 0],
                source_sets: vec!["cameras".into()],
                ..FirewallMatch::default()
            },
            verdict: FirewallVerdict::Drop,
            reject_with: None,
            rate_limit: Some(FirewallRateLimit { packets_per_second: 10, burst: 5 }),
            log: Some(FirewallLog { prefix: "cameras".into(), level: FirewallLogLevel::Info }),
            order: 3,
        }),
        FirewallObject::FilterRule(FirewallFilterRule {
            id: "from-device".into(),
            ownership: owned,
            enabled: true,
            direction: FirewallDirection::Output,
            matches: FirewallMatch {
                output_interfaces: vec!["eth1".into()],
                ..FirewallMatch::default()
            },
            verdict: FirewallVerdict::Accept,
            reject_with: None,
            rate_limit: None,
            log: None,
            order: 4,
        }),
        FirewallObject::NatRule(FirewallNatRule {
            id: "publish".into(),
            ownership: owned,
            enabled: true,
            kind: FirewallNatKind::DestinationNat,
            matches: FirewallMatch {
                family: FirewallFamily::Ipv4,
                source_zones: vec!["wan".into()],
                destination_zones: vec!["guest".into()],
                protocols: vec![FirewallProtocol::Tcp],
                destination_networks: vec![network4([203, 0, 113, 7], 32)],
                destination_ports: vec![PortRange { start: 8080, end: 8080 }],
                ..FirewallMatch::default()
            },
            translation_address: Some(IpAddr::v4(192, 168, 8, 9)),
            translation_port: Some(PortRange { start: 80, end: 80 }),
            order: 5,
        }),
        FirewallObject::NatRule(FirewallNatRule {
            id: "leave".into(),
            ownership: owned,
            enabled: true,
            kind: FirewallNatKind::Masquerade,
            matches: FirewallMatch {
                source_zones: vec!["wan".into()],
                source_networks: vec![network4([192, 168, 8, 0], 24)],
                ..FirewallMatch::default()
            },
            translation_address: None,
            translation_port: None,
            order: 6,
        }),
    ];
    for backend in [FirewallBackend::Fw3, FirewallBackend::Fw4] {
        let plan = create_plan(&base_inventory(), objects.clone());
        let stage = render_openwrt_firewall_stage(&plan, &vec![], backend).expect("render");
        let text = shown("", &stage.uci_batch);
        let after = inspect_openwrt_firewall_inventory(&text, &VALID).expect("inspect");
        assert_eq!(after.inventory().objects, objects);
        assert!(after.read_only_sections().is_empty());
    }
}

#[test]
fn every_firewall_section_is_accounted_for() {
    let text = "firewall.@defaults[0]=defaults\n\
        firewall.@defaults[0].input='REJECT'\n\
        firewall.@defaults[0].output='ACCEPT'\n\
        firewall.@defaults[0].forward='REJECT'\n\
        firewall.lan=zone\n\
        firewall.lan.name='lan'\n\
        firewall.lan.network='lan'\n\
        firewall.lan.input='ACCEPT'\n\
        firewall.lan.output='ACCEPT'\n\
        firewall.lan.forward='REJECT'\n\
        firewall.script=include\n\
        firewall.script.path='/etc/firewall.user'\n";
    let snapshot = inspect_openwrt_firewall_inventory(text, &VALID).expect("inspect");
    let mut sections: Vec<&str> =
        snapshot.bindings().iter().map(|binding| binding.section.as_str()).collect();
    sections.extend(snapshot.read_only_sections().iter().map(String::as_str));
    sections.sort_unstable();
    assert_eq!(sections, ["lan", "script"]);
}
