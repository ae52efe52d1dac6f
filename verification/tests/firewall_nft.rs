//! Inspection and rendering of the managed table.

use platform_linux::change::{
    ChangeOperation, ConfigDomain, ObjectChecks, ObjectDiff, ObjectOwnership, ObjectReference,
    RiskLevel,
};
use platform_linux::firewall_model::{
    FirewallAddressSet, FirewallConntrackState, FirewallDirection, FirewallFamily,
    FirewallFilterRule, FirewallForwarding, FirewallInventory, FirewallLog, FirewallLogLevel,
    FirewallMatch, FirewallMutationPlan, FirewallNatKind, FirewallNatRule, FirewallObject,
    FirewallPlannedChange, FirewallProtocol, FirewallRateLimit, FirewallRejectKind,
    FirewallSetEntry, FirewallVerdict, FirewallZone, PortRange,
};
use platform_linux::firewall_nft::{
    inspect_nftables_table_state, render_nftables_firewall_stage, NftablesCoexistence,
    NftablesOperation, NftablesRenderError, NftablesTableState,
};
use platform_linux::net::{IpAddr, IpNetwork};

/// The object model is content with everything.
const VALID: [bool; 64] = [true; 64];
#[test]
fn inspection_requires_the_exact_owned_table_marker() {
    assert_eq!(
        inspect_nftables_table_state(None),
        Ok(NftablesTableState::Absent)
    );
    assert_eq!(
        inspect_nftables_table_state(Some(
            "table inet mbed_agent {\n\tcomment \"mbed-agent-owned:v1\"\n}\n"
        )),
        Ok(NftablesTableState::AgentOwned)
    );
    assert_eq!(
        inspect_nftables_table_state(Some(
            "table inet mbed_agent {\n\tcomment \"other-owner\"\n}\n"
        )),
        Err(NftablesRenderError::ForeignTable)
    );
    assert_eq!(
        inspect_nftables_table_state(Some("table ip mbed_agent {\n}\n")),
        Err(NftablesRenderError::MalformedInspection)
    );
}

#[test]
fn renders_complete_agent_owned_filter_set_forwarding_and_nat_state() {
    let inventory = base_inventory();
    let set = FirewallObject::AddressSet(FirewallAddressSet {
        id: "blocked-sources".into(),
        ownership: ObjectOwnership::AgentOwned,
        enabled: true,
        family: FirewallFamily::Ipv4,
        entries: vec![
            FirewallSetEntry::Network(network4([198, 51, 100, 0], 24)),
            FirewallSetEntry::Network(network4([203, 0, 113, 0], 24)),
        ],
    });
    let rule = FirewallObject::FilterRule(FirewallFilterRule {
        id: "drop-admin-probes".into(),
        ownership: ObjectOwnership::AgentOwned,
        enabled: true,
        direction: FirewallDirection::Input,
        matches: FirewallMatch {
            family: FirewallFamily::Ipv4,
            source_zones: vec!["wan".into()],
            source_macs: vec!["aa:bb:cc:dd:ee:ff".into()],
            protocols: vec![FirewallProtocol::Tcp],
            destination_ports: vec![PortRange { start: 22, end: 23 }],
            conntrack_states: vec![FirewallConntrackState::New],
            source_sets: vec!["blocked-sources".into()],
            ..FirewallMatch::default()
        },
        verdict: FirewallVerdict::Drop,
        reject_with: None,
        rate_limit: Some(FirewallRateLimit {
            packets_per_second: 10,
            burst: 20,
        }),
        log: Some(FirewallLog {
            prefix: "mbed-drop".into(),
            level: FirewallLogLevel::Warning,
        }),
        order: 10,
    });
    let dnat = FirewallObject::NatRule(FirewallNatRule {
        id: "publish-https".into(),
        ownership: ObjectOwnership::AgentOwned,
        enabled: true,
        kind: FirewallNatKind::DestinationNat,
        matches: FirewallMatch {
            family: FirewallFamily::Ipv4,
            source_zones: vec!["wan".into()],
            protocols: vec![FirewallProtocol::Tcp],
            destination_ports: vec![PortRange {
                start: 8443,
                end: 8443,
            }],
            ..FirewallMatch::default()
        },
        translation_address: Some(IpAddr::v4(192, 168, 1, 10)),
        translation_port: Some(PortRange {
            start: 443,
            end: 443,
        }),
        order: 20,
    });
    let snat = FirewallObject::NatRule(FirewallNatRule {
        id: "service-snat".into(),
        ownership: ObjectOwnership::AgentOwned,
        enabled: true,
        kind: FirewallNatKind::SourceNat,
        matches: FirewallMatch {
            family: FirewallFamily::Ipv4,
            source_zones: vec!["lan".into()],
            source_networks: vec![network4([192, 168, 1, 0], 24)],
            ..FirewallMatch::default()
        },
        translation_address: Some(IpAddr::v4(203, 0, 113, 8)),
        translation_port: None,
        order: 30,
    });
    let plan = create_plan(&inventory, vec![set, rule, dnat, snat]);
    let stage = render_nftables_firewall_stage(&inventory, &VALID, &plan, NftablesTableState::Absent)
        .expect("render nftables");

    assert!(!stage.ruleset.starts_with("delete table"));
    assert!(stage.ruleset.contains("table inet mbed_agent {"));
    assert!(stage.ruleset.contains("comment \"mbed-agent-owned:v1\""));
    assert!(stage.ruleset.contains("type ipv4_addr"));
    assert!(
        stage
            .ruleset
            .contains("elements = { 198.51.100.0/24, 203.0.113.0/24 }")
    );
    assert!(stage.ruleset.contains("iifname \"eth0\""));
    assert!(stage.ruleset.contains("meta nfproto ipv4"));
    assert!(stage.ruleset.contains("ether saddr aa:bb:cc:dd:ee:ff"));
    assert!(stage.ruleset.contains("th dport 22-23"));
    assert!(stage.ruleset.contains("ct state new"));
    assert!(
        stage
            .ruleset
            .contains("limit rate 10/second burst 20 packets")
    );
    assert!(
        stage
            .ruleset
            .contains("log prefix \"mbed-drop\" level warn")
    );
    assert!(stage.ruleset.contains("dnat ip to 192.168.1.10:443"));
    assert!(stage.ruleset.contains("snat ip to 203.0.113.8"));
    assert!(
        stage
            .ruleset
            .contains("oifname \"eth0\" masquerade comment \"zone-masq:wan\"")
    );
    assert!(
        stage
            .ruleset
            .contains("iifname \"br-lan\" oifname \"eth0\" accept")
    );
    assert_eq!(stage.validation, NftablesOperation::Check);
    assert_eq!(stage.activation, NftablesOperation::Load);
    assert_eq!(stage.coexistence, NftablesCoexistence::IsolatedAdditive);
}

#[test]
fn existing_owned_table_is_replaced_in_one_ruleset() {
    let inventory = base_inventory();
    let plan = create_plan(
        &inventory,
        vec![FirewallObject::FilterRule(simple_drop_rule("deny-ssh", 10))],
    );
    let stage =
        render_nftables_firewall_stage(&inventory, &VALID, &plan, NftablesTableState::AgentOwned)
            .expect("replace table");
    assert!(
        stage
            .ruleset
            .starts_with("delete table inet mbed_agent\ntable inet mbed_agent")
    );
}

#[test]
fn renders_ipv6_mac_port_sets_reject_and_local_redirect() {
    let inventory = base_inventory();
    let objects = vec![
        FirewallObject::AddressSet(FirewallAddressSet {
            id: "admin-macs".into(),
            ownership: ObjectOwnership::AgentOwned,
            enabled: true,
            family: FirewallFamily::Any,
            entries: vec![FirewallSetEntry::Mac("02:00:00:00:00:01".into())],
        }),
        FirewallObject::AddressSet(FirewallAddressSet {
            id: "admin-ports".into(),
            ownership: ObjectOwnership::AgentOwned,
            enabled: true,
            family: FirewallFamily::Any,
            entries: vec![
                FirewallSetEntry::Port(PortRange { start: 22, end: 22 }),
                FirewallSetEntry::Port(PortRange {
                    start: 8000,
                    end: 8010,
                }),
            ],
        }),
        FirewallObject::AddressSet(FirewallAddressSet {
            id: "v6-blocked".into(),
            ownership: ObjectOwnership::AgentOwned,
            enabled: true,
            family: FirewallFamily::Ipv6,
            entries: vec![FirewallSetEntry::Network(IpNetwork {
                address: IpAddr::parse("2001:db8::").expect("IPv6"),
                prefix_len: 32,
            })],
        }),
        FirewallObject::FilterRule(FirewallFilterRule {
            id: "reject-v6-admin".into(),
            ownership: ObjectOwnership::AgentOwned,
            enabled: true,
            direction: FirewallDirection::Input,
            matches: FirewallMatch {
                family: FirewallFamily::Ipv6,
                source_zones: vec!["wan".into()],
                protocols: vec![FirewallProtocol::Tcp],
                source_sets: vec!["admin-macs".into(), "v6-blocked".into()],
                destination_sets: vec!["admin-ports".into()],
                ..FirewallMatch::default()
            },
            verdict: FirewallVerdict::Reject,
            reject_with: Some(FirewallRejectKind::Icmp6PortUnreachable),
            rate_limit: None,
            log: None,
            order: 5,
        }),
        FirewallObject::NatRule(FirewallNatRule {
            id: "local-dns".into(),
            ownership: ObjectOwnership::AgentOwned,
            enabled: true,
            kind: FirewallNatKind::Redirect,
            matches: FirewallMatch {
                family: FirewallFamily::Ipv4,
                source_zones: vec!["lan".into()],
                protocols: vec![FirewallProtocol::Udp],
                destination_ports: vec![PortRange { start: 53, end: 53 }],
                ..FirewallMatch::default()
            },
            translation_address: None,
            translation_port: Some(PortRange {
                start: 5353,
                end: 5353,
            }),
            order: 6,
        }),
    ];
    let plan = create_plan(&inventory, objects);
    let stage = render_nftables_firewall_stage(&inventory, &VALID, &plan, NftablesTableState::Absent)
        .expect("render diverse nftables state");

    assert!(stage.ruleset.contains("type ether_addr"));
    assert!(stage.ruleset.contains("type inet_service"));
    assert!(stage.ruleset.contains("type ipv6_addr"));
    assert!(stage.ruleset.contains("elements = { 2001:db8::/32 }"));
    assert!(stage.ruleset.contains("ip6 saddr @s_"));
    assert!(stage.ruleset.contains("ether saddr @s_"));
    assert!(stage.ruleset.contains("th dport @s_"));
    assert!(
        stage
            .ruleset
            .contains("reject with icmpv6 type port-unreachable")
    );
    assert!(stage.ruleset.contains("udp"));
    assert!(stage.ruleset.contains("redirect to :5353"));
}

#[test]
fn update_is_bound_to_the_exact_fresh_inventory_object() {
    let before = FirewallObject::FilterRule(simple_drop_rule("deny-ssh", 10));
    let mut inventory = base_inventory();
    inventory.objects.push(before.clone());
    let mut after = before.clone();
    let FirewallObject::FilterRule(rule) = &mut after else {
        panic!("filter fixture");
    };
    rule.order = 5;
    let plan = plan_firewall_mutations(
        &inventory,
        &[FirewallMutation::Move {
            expected_digest: firewall_object_digest(&before).expect("digest"),
            desired: after,
        }])
    .expect("plan move");

    let mut changed_inventory = inventory.clone();
    let FirewallObject::FilterRule(rule) = &mut changed_inventory.objects[3] else {
        panic!("filter fixture");
    };
    rule.enabled = false;
    assert_eq!(
        render_nftables_firewall_stage(&changed_inventory, &VALID,
            &plan,
            NftablesTableState::AgentOwned
        ),
        Err(NftablesRenderError::PlanMismatch)
    );
}

#[test]
fn platform_native_mutations_cannot_enter_the_owned_table() {
    let mut inventory = base_inventory();
    let FirewallObject::Zone(zone) = &mut inventory.objects[0] else {
        panic!("zone fixture");
    };
    zone.ownership = ObjectOwnership::PlatformNative;
    let before = inventory.objects[0].clone();
    let mut after = before.clone();
    let FirewallObject::Zone(zone) = &mut after else {
        panic!("zone fixture");
    };
    zone.input = FirewallVerdict::Drop;
    let plan = plan_firewall_mutations(
        &inventory,
        &[FirewallMutation::Update {
            expected_digest: firewall_object_digest(&before).expect("digest"),
            desired: after,
        }])
    .expect("platform plan");
    assert_eq!(
        render_nftables_firewall_stage(&inventory, &VALID, &plan, NftablesTableState::Absent),
        Err(NftablesRenderError::Ownership)
    );
}

#[test]
fn rejects_ambiguous_mixed_family_and_nontransport_port_semantics() {
    let inventory = base_inventory();
    let mixed = FirewallObject::FilterRule(FirewallFilterRule {
        id: "mixed-family".into(),
        ownership: ObjectOwnership::AgentOwned,
        enabled: true,
        direction: FirewallDirection::Input,
        matches: FirewallMatch {
            family: FirewallFamily::Any,
            source_networks: vec![
                network4([192, 0, 2, 0], 24),
                IpNetwork {
                    address: IpAddr::V6(1),
                    prefix_len: 128,
                },
            ],
            ..FirewallMatch::default()
        },
        verdict: FirewallVerdict::Drop,
        reject_with: None,
        rate_limit: None,
        log: None,
        order: 1,
    });
    let mixed_plan = create_plan(&inventory, vec![mixed]);
    assert_eq!(
        render_nftables_firewall_stage(&inventory, &VALID, &mixed_plan, NftablesTableState::Absent),
        Err(NftablesRenderError::UnsupportedField(
            "mixed IPv4/IPv6 networks in one rule"
        ))
    );

    let mut invalid_ports = simple_drop_rule("mixed-protocol", 2);
    invalid_ports.matches.protocols = vec![FirewallProtocol::Tcp, FirewallProtocol::Esp];
    invalid_ports.matches.destination_ports = vec![PortRange {
        start: 443,
        end: 443,
    }];
    let ports_plan = create_plan(&inventory, vec![FirewallObject::FilterRule(invalid_ports)]);
    assert_eq!(
        render_nftables_firewall_stage(&inventory, &VALID, &ports_plan, NftablesTableState::Absent),
        Err(NftablesRenderError::UnsupportedField(
            "ports combined with a non-transport protocol"
        ))
    );
}

#[test]
fn rejects_multiple_same_dimension_set_references_without_silent_intersection() {
    let inventory = base_inventory();
    let set_a = FirewallObject::AddressSet(FirewallAddressSet {
        id: "net-a".into(),
        ownership: ObjectOwnership::AgentOwned,
        enabled: true,
        family: FirewallFamily::Ipv4,
        entries: vec![FirewallSetEntry::Network(network4([192, 0, 2, 0], 24))],
    });
    let set_b = FirewallObject::AddressSet(FirewallAddressSet {
        id: "net-b".into(),
        ownership: ObjectOwnership::AgentOwned,
        enabled: true,
        family: FirewallFamily::Ipv4,
        entries: vec![FirewallSetEntry::Network(network4([198, 51, 100, 0], 24))],
    });
    let mut rule = simple_drop_rule("two-network-sets", 1);
    rule.matches.source_sets = vec!["net-a".into(), "net-b".into()];
    let plan = create_plan(
        &inventory,
        vec![set_a, set_b, FirewallObject::FilterRule(rule)],
    );
    assert_eq!(
        render_nftables_firewall_stage(&inventory, &VALID, &plan, NftablesTableState::Absent),
        Err(NftablesRenderError::UnsupportedField(
            "multiple same-dimension sets require rule expansion"
        ))
    );
}

fn create_plan(
    inventory: &FirewallInventory,
    objects: Vec<FirewallObject>,
) -> FirewallMutationPlan {
    plan_firewall_mutations(
        inventory,
        &objects
            .into_iter()
            .map(FirewallMutation::Create)
            .collect::<Vec<_>>())
    .expect("create plan")
}

fn base_inventory() -> FirewallInventory {
    FirewallInventory {
        objects: vec![
            FirewallObject::Zone(FirewallZone {
                id: "lan".into(),
                ownership: ObjectOwnership::AgentOwned,
                enabled: true,
                networks: vec!["br-lan".into()],
                input: FirewallVerdict::Accept,
                output: FirewallVerdict::Accept,
                forward: FirewallVerdict::Drop,
                masquerade: false,
                mtu_fix: false,
            }),
            FirewallObject::Zone(FirewallZone {
                id: "wan".into(),
                ownership: ObjectOwnership::AgentOwned,
                enabled: true,
                networks: vec!["eth0".into()],
                input: FirewallVerdict::Drop,
                output: FirewallVerdict::Accept,
                forward: FirewallVerdict::Drop,
                masquerade: true,
                mtu_fix: false,
            }),
            FirewallObject::Forwarding(FirewallForwarding {
                id: "lan-wan".into(),
                ownership: ObjectOwnership::AgentOwned,
                enabled: true,
                source_zone: "lan".into(),
                destination_zone: "wan".into(),
            }),
        ],
    }
}

fn simple_drop_rule(id: &str, order: u32) -> FirewallFilterRule {
    FirewallFilterRule {
        id: id.into(),
        ownership: ObjectOwnership::AgentOwned,
        enabled: true,
        direction: FirewallDirection::Input,
        matches: FirewallMatch {
            family: FirewallFamily::Ipv4,
            source_zones: vec!["wan".into()],
            protocols: vec![FirewallProtocol::Tcp],
            destination_ports: vec![PortRange { start: 22, end: 22 }],
            ..FirewallMatch::default()
        },
        verdict: FirewallVerdict::Drop,
        reject_with: None,
        rate_limit: None,
        log: None,
        order,
    }
}

fn network4(octets: [u8; 4], prefix_len: u8) -> IpNetwork {
    IpNetwork {
        address: IpAddr::v4(octets[0], octets[1], octets[2], octets[3]),
        prefix_len,
    }
}

fn sha256_hex(text: &str) -> String {
    let digest = ring::digest::digest(&ring::digest::SHA256, text.as_bytes());
    digest.as_ref().iter().map(|byte| format!("{byte:02x}")).collect()
}

/// The changes that a planner takes.
#[allow(dead_code)]
enum FirewallMutation {
    Create(FirewallObject),
    Update { expected_digest: String, desired: FirewallObject },
    Move { expected_digest: String, desired: FirewallObject },
    Delete { kind: String, id: String, expected_digest: String },
}

fn firewall_object_digest(object: &FirewallObject) -> Option<String> {
    Some(sha256_hex(&format!("{object:?}")))
}

fn checks(object: &Option<FirewallObject>) -> ObjectChecks {
    ObjectChecks { valid: true, digest: object.as_ref().and_then(firewall_object_digest) }
}

/// Plans changes against an inventory, with the object model content with every object.
fn plan_firewall_mutations(inventory: &FirewallInventory, mutations: &[FirewallMutation]) -> Option<FirewallMutationPlan> {
    let find = |kind: &str, id: &str| {
        inventory
            .objects
            .iter()
            .find(|object| object.kind() == kind && object.id() == id)
            .cloned()
    };
    let mut changes = Vec::new();
    for mutation in mutations {
        let (operation, before, after) = match mutation {
            FirewallMutation::Create(object) => (ChangeOperation::Create, None, Some(object.clone())),
            FirewallMutation::Update { expected_digest, desired } => {
                let before = find(desired.kind(), desired.id())?;
                assert_eq!(firewall_object_digest(&before).as_ref(), Some(expected_digest));
                (ChangeOperation::Update, Some(before), Some(desired.clone()))
            }
            FirewallMutation::Move { expected_digest, desired } => {
                let before = find(desired.kind(), desired.id())?;
                assert_eq!(firewall_object_digest(&before).as_ref(), Some(expected_digest));
                (ChangeOperation::Move, Some(before), Some(desired.clone()))
            }
            FirewallMutation::Delete { kind, id, expected_digest } => {
                let before = find(kind, id)?;
                assert_eq!(firewall_object_digest(&before).as_ref(), Some(expected_digest));
                (ChangeOperation::Delete, Some(before), None)
            }
        };
        let before_checks = checks(&before);
        let after_checks = checks(&after);
        let subject = after.as_ref().or(before.as_ref())?;
        let diff = ObjectDiff {
            operation,
            object: ObjectReference {
                domain: ConfigDomain::Firewall,
                kind: subject.kind().to_owned(),
                id: subject.id().to_owned(),
                ownership: subject.ownership(),
                expected_version: before_checks.digest.clone(),
            },
            before_digest: before_checks.digest.clone(),
            after_digest: after_checks.digest.clone(),
        };
        changes.push(FirewallPlannedChange { before, after, diff, before_checks, after_checks });
    }
    Some(FirewallMutationPlan { risk: RiskLevel::R2, changes })
}

#[test]
fn rendered_table_is_isolated_and_recognised() {
    let inventory = base_inventory();
    let plan = create_plan(
        &inventory,
        vec![FirewallObject::FilterRule(simple_drop_rule("deny-ssh", 10))],
    );
    for state in [NftablesTableState::Absent, NftablesTableState::AgentOwned] {
        let stage =
            render_nftables_firewall_stage(&inventory, &VALID, &plan, state).expect("render");
        assert_eq!(
            inspect_nftables_table_state(Some(&stage.ruleset)),
            Ok(NftablesTableState::AgentOwned)
        );
        let outside: Vec<&str> =
            stage.ruleset.lines().filter(|line| !line.starts_with("    ")).collect();
        let table = ["table inet mbed_agent {", "}"];
        if state == NftablesTableState::AgentOwned {
            assert_eq!(outside[0], "delete table inet mbed_agent");
            assert_eq!(outside[1..], table);
        } else {
            assert_eq!(outside, table);
        }
    }
}

#[test]
fn the_table_is_deleted_first_where_the_agent_owns_one() {
    let inventory = base_inventory();
    let plan = create_plan(
        &inventory,
        vec![FirewallObject::FilterRule(simple_drop_rule("deny-ssh", 10))],
    );
    for (state, deleted) in [
        (NftablesTableState::Absent, false),
        (NftablesTableState::AgentOwned, true),
    ] {
        let stage =
            render_nftables_firewall_stage(&inventory, &VALID, &plan, state).expect("render");
        assert!(stage.ruleset.len() <= 65536);
        assert_eq!(stage.ruleset.starts_with("delete table inet mbed_agent\n"), deleted);
        assert_eq!(
            inspect_nftables_table_state(Some(&stage.ruleset)),
            Ok(NftablesTableState::AgentOwned)
        );
    }
}
