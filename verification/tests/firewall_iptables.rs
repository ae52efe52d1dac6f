//! Inspection and rendering of both iptables families.

use platform_linux::change::{
    ChangeOperation, ConfigDomain, ObjectChecks, ObjectDiff, ObjectOwnership, ObjectReference,
    RiskLevel,
};
use platform_linux::firewall_iptables::{
    chains, inspect_iptables_family_state, render_iptables_firewall_stage, translation_endpoint,
    IptablesCoexistence, IptablesFamilyState, IptablesOperation, IptablesRenderError,
};
use platform_linux::firewall_model::{
    FirewallAddressSet, FirewallConntrackState, FirewallDirection, FirewallFamily,
    FirewallFilterRule, FirewallForwarding, FirewallInventory, FirewallLog, FirewallLogLevel,
    FirewallMatch, FirewallMutationPlan, FirewallNatKind, FirewallNatRule, FirewallObject,
    FirewallPlannedChange, FirewallProtocol, FirewallRateLimit, FirewallRejectKind,
    FirewallSetEntry, FirewallVerdict, FirewallZone, PortRange,
};
use platform_linux::net::{IpAddr, IpNetwork};

/// The object model is content with everything.
const VALID: [bool; 64] = [true; 64];
#[test]
fn inspection_requires_all_six_owned_chains_and_exact_hooks() {
    assert_eq!(
        inspect_iptables_family_state(""),
        Ok(IptablesFamilyState::Absent)
    );
    let save = owned_save();
    assert_eq!(
        inspect_iptables_family_state(&save),
        Ok(IptablesFamilyState::AgentOwned)
    );
    let partial = save.replace(
        "-A FORWARD -m comment --comment \"mbed-agent-owned:v1:mangle-forward\" -j MBED_MANGLE_FORWARD\n",
        "",
    );
    assert_eq!(
        inspect_iptables_family_state(&partial),
        Err(IptablesRenderError::ForeignChains)
    );
    let duplicate = format!("{save}*filter\n-A INPUT -j MBED_INPUT\nCOMMIT\n");
    assert_eq!(
        inspect_iptables_family_state(&duplicate),
        Err(IptablesRenderError::ForeignChains)
    );
    assert_eq!(
        inspect_iptables_family_state("*filter\n:MBED_INPUTX - [0:0]\nCOMMIT\n"),
        Ok(IptablesFamilyState::Absent)
    );
    assert_eq!(
        inspect_iptables_family_state("*filter\0"),
        Err(IptablesRenderError::MalformedInspection)
    );
}

#[test]
fn renders_bounded_dual_stack_restore_artifacts() {
    let inventory = base_inventory();
    let objects = vec![
        FirewallObject::AddressSet(FirewallAddressSet {
            id: "blocked-v4".into(),
            ownership: ObjectOwnership::AgentOwned,
            enabled: true,
            family: FirewallFamily::Ipv4,
            entries: vec![
                FirewallSetEntry::Network(network4([198, 51, 100, 0], 24)),
                FirewallSetEntry::Network(network4([203, 0, 113, 0], 24)),
            ],
        }),
        FirewallObject::AddressSet(FirewallAddressSet {
            id: "admin-macs".into(),
            ownership: ObjectOwnership::AgentOwned,
            enabled: true,
            family: FirewallFamily::Any,
            entries: vec![FirewallSetEntry::Mac("02:00:00:00:00:01".into())],
        }),
        FirewallObject::AddressSet(FirewallAddressSet {
            id: "admin-ports".into(),
            ownership: ObjectOwnership::AgentOwned,
            enabled: true,
            family: FirewallFamily::Any,
            entries: vec![
                FirewallSetEntry::Port(PortRange { start: 22, end: 22 }),
                FirewallSetEntry::Port(PortRange {
                    start: 8000,
                    end: 8010,
                }),
            ],
        }),
        FirewallObject::FilterRule(FirewallFilterRule {
            id: "drop-admin".into(),
            ownership: ObjectOwnership::AgentOwned,
            enabled: true,
            direction: FirewallDirection::Input,
            matches: FirewallMatch {
                family: FirewallFamily::Ipv4,
                source_zones: vec!["wan".into()],
                protocols: vec![FirewallProtocol::Tcp],
                conntrack_states: vec![FirewallConntrackState::New],
                source_sets: vec!["blocked-v4".into(), "admin-macs".into()],
                destination_sets: vec!["admin-ports".into()],
                ..FirewallMatch::default()
            },
            verdict: FirewallVerdict::Drop,
            reject_with: None,
            rate_limit: None,
            log: Some(FirewallLog {
                prefix: "mbed-drop".into(),
                level: FirewallLogLevel::Warning,
            }),
            order: 10,
        }),
        FirewallObject::FilterRule(FirewallFilterRule {
            id: "rate-ssh".into(),
            ownership: ObjectOwnership::AgentOwned,
            enabled: true,
            direction: FirewallDirection::Input,
            matches: FirewallMatch {
                family: FirewallFamily::Ipv4,
                source_zones: vec!["wan".into()],
                protocols: vec![FirewallProtocol::Tcp],
                destination_ports: vec![PortRange {
                    start: 2222,
                    end: 2222,
                }],
                ..FirewallMatch::default()
            },
            verdict: FirewallVerdict::Drop,
            reject_with: None,
            rate_limit: Some(FirewallRateLimit {
                packets_per_second: 10,
                burst: 20,
            }),
            log: None,
            order: 11,
        }),
        FirewallObject::NatRule(FirewallNatRule {
            id: "publish-v4".into(),
            ownership: ObjectOwnership::AgentOwned,
            enabled: true,
            kind: FirewallNatKind::DestinationNat,
            matches: FirewallMatch {
                family: FirewallFamily::Ipv4,
                source_zones: vec!["wan".into()],
                protocols: vec![FirewallProtocol::Tcp],
                destination_ports: vec![PortRange {
                    start: 8443,
                    end: 8443,
                }],
                ..FirewallMatch::default()
            },
            translation_address: Some(IpAddr::v4(192, 168, 1, 10)),
            translation_port: Some(PortRange {
                start: 443,
                end: 443,
            }),
            order: 20,
        }),
        FirewallObject::NatRule(FirewallNatRule {
            id: "publish-v6".into(),
            ownership: ObjectOwnership::AgentOwned,
            enabled: true,
            kind: FirewallNatKind::DestinationNat,
            matches: FirewallMatch {
                family: FirewallFamily::Ipv6,
                source_zones: vec!["wan".into()],
                protocols: vec![FirewallProtocol::Tcp],
                destination_ports: vec![PortRange {
                    start: 9443,
                    end: 9443,
                }],
                ..FirewallMatch::default()
            },
            translation_address: Some(IpAddr::parse("2001:db8::10").expect("IPv6 address")),
            translation_port: Some(PortRange {
                start: 443,
                end: 443,
            }),
            order: 30,
        }),
    ];
    let plan = create_plan(&inventory, objects);
    let stage = render_iptables_firewall_stage(&inventory, &VALID,
        &plan,
        IptablesFamilyState::Absent,
        IptablesFamilyState::Absent,
    )
    .expect("render iptables");

    assert!(stage.ipv4_restore.contains("*filter\n:MBED_INPUT - [0:0]"));
    assert!(
        stage
            .ipv4_restore
            .contains("-A INPUT -m comment --comment mbed-agent-owned:v1:input -j MBED_INPUT")
    );
    assert!(stage.ipv4_restore.contains("-s 198.51.100.0/24"));
    assert!(
        stage
            .ipv4_restore
            .contains("-m mac --mac-source 02:00:00:00:00:01")
    );
    assert!(stage.ipv4_restore.contains("--dport 8000:8010"));
    assert!(stage.ipv4_restore.contains("-m conntrack --ctstate NEW"));
    assert!(
        stage
            .ipv4_restore
            .contains("--limit 10/second --limit-burst 20")
    );
    assert!(
        stage
            .ipv4_restore
            .contains("-j LOG --log-prefix \"mbed-drop\" --log-level warning")
    );
    assert!(stage.ipv4_restore.contains("*mangle\n:MBED_MANGLE_FORWARD"));
    assert!(stage.ipv4_restore.contains("-j TCPMSS --clamp-mss-to-pmtu"));
    assert!(
        stage
            .ipv4_restore
            .contains("--to-destination 192.168.1.10:443")
    );
    assert!(stage.ipv4_restore.contains("-j MASQUERADE"));
    assert!(!stage.ipv4_restore.contains("2001:db8::10"));
    assert!(
        stage
            .ipv6_restore
            .contains("--to-destination [2001:db8::10]:443")
    );
    assert!(!stage.ipv6_restore.contains("198.51.100.0/24"));
    assert_eq!(
        stage.validations,
        vec![
            IptablesOperation::ValidateIpv4,
            IptablesOperation::ValidateIpv6
        ]
    );
    assert_eq!(
        stage.activations,
        vec![IptablesOperation::LoadIpv4, IptablesOperation::LoadIpv6]
    );
    assert_eq!(stage.coexistence, IptablesCoexistence::AppendedTerminal);
    assert!(stage.rollback_required);
}

#[test]
fn owned_state_redeclares_only_managed_chains_without_duplicate_hooks() {
    let inventory = base_inventory();
    let plan = create_plan(
        &inventory,
        vec![FirewallObject::FilterRule(simple_rule("deny-ssh"))],
    );
    let stage = render_iptables_firewall_stage(&inventory, &VALID,
        &plan,
        IptablesFamilyState::AgentOwned,
        IptablesFamilyState::AgentOwned,
    )
    .expect("render owned chains");

    assert!(stage.ipv4_restore.contains(":MBED_INPUT - [0:0]"));
    assert!(!stage.ipv4_restore.contains("mbed-agent-owned:v1:input"));
    assert!(!stage.ipv4_restore.contains(":INPUT "));
}

#[test]
fn rejects_foreign_ownership_and_iptables_specific_ambiguity() {
    let mut inventory = base_inventory();
    let FirewallObject::Zone(zone) = &mut inventory.objects[0] else {
        panic!("zone fixture");
    };
    zone.ownership = ObjectOwnership::PlatformNative;
    let before = inventory.objects[0].clone();
    let mut after = before.clone();
    let FirewallObject::Zone(zone) = &mut after else {
        panic!("zone fixture");
    };
    zone.input = FirewallVerdict::Drop;
    let plan = plan_firewall_mutations(
        &inventory,
        &[FirewallMutation::Update {
            expected_digest: firewall_object_digest(&before).expect("digest"),
            desired: after,
        }])
    .expect("platform plan");
    assert_eq!(
        render_iptables_firewall_stage(&inventory, &VALID,
            &plan,
            IptablesFamilyState::Absent,
            IptablesFamilyState::Absent
        ),
        Err(IptablesRenderError::Ownership)
    );

    let inventory = base_inventory();
    let set = FirewallObject::AddressSet(FirewallAddressSet {
        id: "destination-macs".into(),
        ownership: ObjectOwnership::AgentOwned,
        enabled: true,
        family: FirewallFamily::Any,
        entries: vec![FirewallSetEntry::Mac("02:00:00:00:00:02".into())],
    });
    let mut rule = simple_rule("dest-mac");
    rule.matches.destination_sets = vec!["destination-macs".into()];
    let plan = create_plan(&inventory, vec![set, FirewallObject::FilterRule(rule)]);
    assert_eq!(
        render_iptables_firewall_stage(&inventory, &VALID,
            &plan,
            IptablesFamilyState::Absent,
            IptablesFamilyState::Absent
        ),
        Err(IptablesRenderError::UnsupportedField(
            "iptables destination MAC matching"
        ))
    );
}

#[test]
fn expansion_is_hard_bounded() {
    let inventory = base_inventory();
    let mut rule = simple_rule("large-cross-product");
    rule.matches.source_networks = (1_u8..=32)
        .map(|last| network4([10, 0, last, 0], 24))
        .collect();
    rule.matches.destination_networks = (1_u8..=32)
        .map(|last| network4([172, 16, last, 0], 24))
        .collect();
    rule.matches.source_macs = vec!["02:00:00:00:00:01".into(), "02:00:00:00:00:02".into()];
    let plan = create_plan(&inventory, vec![FirewallObject::FilterRule(rule)]);
    assert_eq!(
        render_iptables_firewall_stage(&inventory, &VALID,
            &plan,
            IptablesFamilyState::Absent,
            IptablesFamilyState::Absent
        ),
        Err(IptablesRenderError::Capacity)
    );
}

#[test]
fn rate_limit_is_not_silently_multiplied_across_expanded_rules() {
    let inventory = base_inventory();
    let mut rule = simple_rule("rate-expanded");
    rule.matches.source_networks = vec![
        network4([192, 0, 2, 0], 24),
        network4([198, 51, 100, 0], 24),
    ];
    rule.rate_limit = Some(FirewallRateLimit {
        packets_per_second: 5,
        burst: 10,
    });
    let plan = create_plan(&inventory, vec![FirewallObject::FilterRule(rule)]);
    assert_eq!(
        render_iptables_firewall_stage(&inventory, &VALID,
            &plan,
            IptablesFamilyState::Absent,
            IptablesFamilyState::Absent
        ),
        Err(IptablesRenderError::UnsupportedField(
            "rate limit across expanded iptables alternatives"
        ))
    );
}

fn owned_save() -> String {
    let mut output = String::new();
    for (table, chains) in [
        (
            "filter",
            vec![
                ("INPUT", "MBED_INPUT", "mbed-agent-owned:v1:input"),
                ("OUTPUT", "MBED_OUTPUT", "mbed-agent-owned:v1:output"),
                ("FORWARD", "MBED_FORWARD", "mbed-agent-owned:v1:forward"),
            ],
        ),
        (
            "mangle",
            vec![("FORWARD", "MBED_MANGLE_FORWARD", "mbed-agent-owned:v1:mangle-forward")],
        ),
        (
            "nat",
            vec![
                ("PREROUTING", "MBED_PREROUTING", "mbed-agent-owned:v1:prerouting"),
                ("POSTROUTING", "MBED_POSTROUTING", "mbed-agent-owned:v1:postrouting"),
            ],
        ),
    ] {
        output.push_str(&format!("*{table}\n"));
        for (builtin, managed, marker) in chains {
            output.push_str(&format!(":{managed} - [0:0]\n"));
            output.push_str(&format!(
                "-A {builtin} -m comment --comment \"{marker}\" -j {managed}\n"
            ));
        }
        output.push_str("COMMIT\n");
    }
    output
}

fn create_plan(
    inventory: &FirewallInventory,
    objects: Vec<FirewallObject>,
) -> FirewallMutationPlan {
    plan_firewall_mutations(
        inventory,
        &objects
            .into_iter()
            .map(FirewallMutation::Create)
            .collect::<Vec<_>>())
    .expect("create plan")
}

fn base_inventory() -> FirewallInventory {
    FirewallInventory {
        objects: vec![
            FirewallObject::Zone(FirewallZone {
                id: "lan".into(),
                ownership: ObjectOwnership::AgentOwned,
                enabled: true,
                networks: vec!["br-lan".into()],
                input: FirewallVerdict::Accept,
                output: FirewallVerdict::Accept,
                forward: FirewallVerdict::Drop,
                masquerade: false,
                mtu_fix: false,
            }),
            FirewallObject::Zone(FirewallZone {
                id: "wan".into(),
                ownership: ObjectOwnership::AgentOwned,
                enabled: true,
                networks: vec!["eth0".into()],
                input: FirewallVerdict::Drop,
                output: FirewallVerdict::Accept,
                forward: FirewallVerdict::Drop,
                masquerade: true,
                mtu_fix: true,
            }),
            FirewallObject::Forwarding(FirewallForwarding {
                id: "lan-wan".into(),
                ownership: ObjectOwnership::AgentOwned,
                enabled: true,
                source_zone: "lan".into(),
                destination_zone: "wan".into(),
            }),
        ],
    }
}

fn simple_rule(id: &str) -> FirewallFilterRule {
    FirewallFilterRule {
        id: id.into(),
        ownership: ObjectOwnership::AgentOwned,
        enabled: true,
        direction: FirewallDirection::Input,
        matches: FirewallMatch {
            family: FirewallFamily::Ipv4,
            source_zones: vec!["wan".into()],
            protocols: vec![FirewallProtocol::Tcp],
            destination_ports: vec![PortRange { start: 22, end: 22 }],
            ..FirewallMatch::default()
        },
        verdict: FirewallVerdict::Drop,
        reject_with: None,
        rate_limit: None,
        log: None,
        order: 1,
    }
}

fn network4(octets: [u8; 4], prefix_len: u8) -> IpNetwork {
    IpNetwork {
        address: IpAddr::v4(octets[0], octets[1], octets[2], octets[3]),
        prefix_len,
    }
}

#[test]
fn ipv6_icmp_protocol_is_emitted_only_in_ip6tables() {
    let inventory = base_inventory();
    let rule = FirewallObject::FilterRule(FirewallFilterRule {
        id: "reject-v6-ping".into(),
        ownership: ObjectOwnership::AgentOwned,
        enabled: true,
        direction: FirewallDirection::Input,
        matches: FirewallMatch {
            family: FirewallFamily::Any,
            protocols: vec![FirewallProtocol::Icmpv6],
            icmp_types: vec![128],
            ..FirewallMatch::default()
        },
        verdict: FirewallVerdict::Reject,
        reject_with: Some(FirewallRejectKind::Icmp6PortUnreachable),
        rate_limit: None,
        log: None,
        order: 2,
    });
    let plan = create_plan(&inventory, vec![rule]);
    let stage = render_iptables_firewall_stage(&inventory, &VALID,
        &plan,
        IptablesFamilyState::Absent,
        IptablesFamilyState::Absent,
    )
    .expect("render ICMPv6");
    assert!(!stage.ipv4_restore.contains("reject-v6-ping"));
    assert!(
        stage
            .ipv6_restore
            .contains("-p ipv6-icmp --icmpv6-type 128")
    );
    assert!(
        stage
            .ipv6_restore
            .contains("--reject-with icmp6-port-unreachable")
    );
}

#[test]
fn ipv6_endpoint_formatter_uses_brackets_for_ports() {
    assert_eq!(
        translation_endpoint(
            IpAddr::V6(1),
            Some(PortRange {
                start: 443,
                end: 443
            })
        ),
        "[::1]:443"
    );
}

fn sha256_hex(text: &str) -> String {
    let digest = ring::digest::digest(&ring::digest::SHA256, text.as_bytes());
    digest.as_ref().iter().map(|byte| format!("{byte:02x}")).collect()
}

/// The changes that a planner takes.
#[allow(dead_code)]
enum FirewallMutation {
    Create(FirewallObject),
    Update { expected_digest: String, desired: FirewallObject },
    Move { expected_digest: String, desired: FirewallObject },
    Delete { kind: String, id: String, expected_digest: String },
}

fn firewall_object_digest(object: &FirewallObject) -> Option<String> {
    Some(sha256_hex(&format!("{object:?}")))
}

fn checks(object: &Option<FirewallObject>) -> ObjectChecks {
    ObjectChecks { valid: true, digest: object.as_ref().and_then(firewall_object_digest) }
}

/// Plans changes against an inventory, with the object model content with every object.
fn plan_firewall_mutations(inventory: &FirewallInventory, mutations: &[FirewallMutation]) -> Option<FirewallMutationPlan> {
    let find = |kind: &str, id: &str| {
        inventory
            .objects
            .iter()
            .find(|object| object.kind() == kind && object.id() == id)
            .cloned()
    };
    let mut changes = Vec::new();
    for mutation in mutations {
        let (operation, before, after) = match mutation {
            FirewallMutation::Create(object) => (ChangeOperation::Create, None, Some(object.clone())),
            FirewallMutation::Update { expected_digest, desired } => {
                let before = find(desired.kind(), desired.id())?;
                assert_eq!(firewall_object_digest(&before).as_ref(), Some(expected_digest));
                (ChangeOperation::Update, Some(before), Some(desired.clone()))
            }
            FirewallMutation::Move { expected_digest, desired } => {
                let before = find(desired.kind(), desired.id())?;
                assert_eq!(firewall_object_digest(&before).as_ref(), Some(expected_digest));
                (ChangeOperation::Move, Some(before), Some(desired.clone()))
            }
            FirewallMutation::Delete { kind, id, expected_digest } => {
                let before = find(kind, id)?;
                assert_eq!(firewall_object_digest(&before).as_ref(), Some(expected_digest));
                (ChangeOperation::Delete, Some(before), None)
            }
        };
        let before_checks = checks(&before);
        let after_checks = checks(&after);
        let subject = after.as_ref().or(before.as_ref())?;
        let diff = ObjectDiff {
            operation,
            object: ObjectReference {
                domain: ConfigDomain::Firewall,
                kind: subject.kind().to_owned(),
                id: subject.id().to_owned(),
                ownership: subject.ownership(),
                expected_version: before_checks.digest.clone(),
            },
            before_digest: before_checks.digest.clone(),
            after_digest: after_checks.digest.clone(),
        };
        changes.push(FirewallPlannedChange { before, after, diff, before_checks, after_checks });
    }
    Some(FirewallMutationPlan { risk: RiskLevel::R2, changes })
}

#[test]
fn every_restored_line_belongs_to_the_managed_chains() {
    let inventory = base_inventory();
    let mut rule = simple_rule("deny-ssh");
    rule.log = Some(FirewallLog { prefix: "ssh: ".into(), level: FirewallLogLevel::Warning });
    let plan = create_plan(&inventory, vec![FirewallObject::FilterRule(rule)]);
    for state in [IptablesFamilyState::Absent, IptablesFamilyState::AgentOwned] {
        let stage = render_iptables_firewall_stage(&inventory, &VALID, &plan, state, state)
            .expect("render");
        for restore in [&stage.ipv4_restore, &stage.ipv6_restore] {
            assert!(restore.ends_with("COMMIT\n"));
            let jumps = restore
                .lines()
                .filter(|line| {
                    !line.starts_with('*')
                        && !line.starts_with(":MBED_")
                        && !line.starts_with("-A MBED_")
                        && *line != "COMMIT"
                })
                .collect::<Vec<_>>();
            assert_eq!(jumps.len(), if state == IptablesFamilyState::Absent { 6 } else { 0 });
            assert!(jumps.iter().all(|line| line.contains("mbed-agent-owned:v1:")));
        }
    }
}

#[test]
fn first_restores_are_recognised_and_owned_ones_lack_the_jumps_only() {
    let inventory = base_inventory();
    let plan = create_plan(
        &inventory,
        vec![FirewallObject::FilterRule(simple_rule("deny-ssh"))],
    );
    let render = |state: IptablesFamilyState| {
        render_iptables_firewall_stage(&inventory, &VALID, &plan, state, state).expect("render")
    };
    let first = render(IptablesFamilyState::Absent);
    let owned = render(IptablesFamilyState::AgentOwned);
    for (a, o) in [
        (&first.ipv4_restore, &owned.ipv4_restore),
        (&first.ipv6_restore, &owned.ipv6_restore),
    ] {
        assert_eq!(inspect_iptables_family_state(a), Ok(IptablesFamilyState::AgentOwned));
        assert_eq!(inspect_iptables_family_state(o), Err(IptablesRenderError::ForeignChains));
        let jumps = a.lines().filter(|line| line.contains("mbed-agent-owned:v1:")).count();
        assert_eq!(jumps, 6);
        let rest: Vec<&str> =
            a.lines().filter(|line| !line.contains("mbed-agent-owned:v1:")).collect();
        assert_eq!(rest, o.lines().collect::<Vec<&str>>());
    }
    assert_eq!(first.validations, owned.validations);
    assert_eq!(first.activations, owned.activations);
    assert_eq!(first.coexistence, owned.coexistence);
    assert_eq!(first.rollback_required, owned.rollback_required);
}

#[test]
fn a_further_jump_is_foreign() {
    let save = owned_save();
    for (table, jump) in [
        ("filter", "-A INPUT -j MBED_INPUT"),
        ("filter", "-I FORWARD 1 -i eth0 -j MBED_FORWARD"),
        ("nat", "-A PREROUTING -m comment --comment \"mbed-agent-owned:v1:prerouting\" -j MBED_PREROUTING"),
        ("mangle", "-A FORWARD -j MBED_MANGLE_FORWARD"),
    ] {
        let more = format!("{save}*{table}\n{jump}\nCOMMIT\n");
        assert_eq!(
            inspect_iptables_family_state(&more),
            Err(IptablesRenderError::ForeignChains)
        );
    }
    let elsewhere = format!("{save}*raw\n-A PREROUTING -j MBED_INPUT\nCOMMIT\n");
    assert_eq!(
        inspect_iptables_family_state(&elsewhere),
        Ok(IptablesFamilyState::AgentOwned)
    );
}
