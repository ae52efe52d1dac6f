//! Reading, reconciling and staging of kernel network state.

use platform_linux::change::{
    ChangeOperation, ConfigDomain, ObjectChecks, ObjectDiff, ObjectOwnership, ObjectReference,
    RiskLevel,
};
use platform_linux::json::{parse_json, Json, JsonField};
use platform_linux::net::{IpAddr, IpNetwork};
use platform_linux::network_model::{
    NetworkAddressMode, NetworkFamily, NetworkInterfaceConfig, NetworkInventory,
    NetworkMutationPlan, NetworkObject, NetworkPlannedChange, NetworkPolicyAction,
    NetworkPolicyRule, NetworkRoute, NetworkRouteType,
};
use platform_linux::network_reconcile::{
    reconcile_runtime_network_inventory, reconcile_runtime_network_inventory_with_links,
    reconcile_runtime_route_inventory, runtime_canonical_includes_interfaces,
    RuntimeCanonicalRecord, RuntimeRouteCanonicalState, RuntimeRouteSnapshot,
};
use platform_linux::network_runtime::{
    inspect_runtime_network_inventory, inspect_runtime_policy_inventory, runtime_policy_candidates,
    RuleAnswer, RuntimeNetworkInventoryError,
};
use platform_linux::network_runtime_stage::{
    push_runtime_change, push_runtime_reverse_change, render_runtime_route_stage,
    seal_runtime_route_stage,
};

/// The object model is content with everything.
const VALID: [bool; 64] = [true; 64];
#[test]
fn reconstructs_interfaces_dynamic_addresses_and_routes() {
    let inventory = inspect_runtime_network_inventory(
        r#"[{"ifname":"eth0","flags":["BROADCAST","UP"],"mtu":1500,"address":"02:00:00:00:00:01"}]"#,
        r#"[{"ifname":"eth0","addr_info":[{"family":"inet","local":"192.0.2.10","prefixlen":24,"dynamic":true},{"family":"inet6","local":"2001:db8::10","prefixlen":64}]}]"#,
        r#"[{"dst":"default","gateway":"192.0.2.1","dev":"eth0","table":"main","metric":100}]"#, &VALID)
    .expect("inventory");
    assert_eq!(inventory.objects.len(), 2);
    let NetworkObject::Interface(interface) = &inventory.objects[0] else {
        panic!("interface expected");
    };
    assert_eq!(interface.ipv4_mode, NetworkAddressMode::Dhcp);
    assert_eq!(interface.ipv6_mode, NetworkAddressMode::Static);
    assert_eq!(interface.ownership, ObjectOwnership::PlatformNative);
    let NetworkObject::Route(route) = &inventory.objects[1] else {
        panic!("route expected");
    };
    assert_eq!(route.destination.prefix_len, 0);
    assert_eq!(route.table, 254);
}

#[test]
fn rejects_duplicate_links_and_omits_ambiguous_multipath() {
    assert!(
        inspect_runtime_network_inventory(
            r#"[{"ifname":"eth0"},{"ifname":"eth0"}]"#,
            "[]",
            "[]", &VALID)
        .is_err()
    );
    let inventory = inspect_runtime_network_inventory(
        r#"[{"ifname":"eth0","flags":[]}]"#,
        "[]",
        r#"[{"dst":"192.0.2.0/24","multipath":[{"dev":"eth0"}]}]"#, &VALID)
    .expect("inventory");
    assert_eq!(inventory.objects.len(), 1);
}

#[test]
fn public_runtime_inventory_excludes_protocol_owned_routes() {
    let inventory = inspect_runtime_network_inventory(
        "[]",
        "[]",
        r#"[{"dst":"192.0.2.0/24","dev":"eth0","protocol":186},{"dst":"198.51.100.0/24","dev":"eth0","protocol":"186"},{"dst":"203.0.113.0/24","dev":"eth0","protocol":"static"}]"#, &VALID)
    .expect("inventory");
    assert_eq!(inventory.objects.len(), 1);
    let NetworkObject::Route(route) = &inventory.objects[0] else {
        panic!("route expected");
    };
    assert_eq!(route.destination.address.text(), "203.0.113.0");
    assert_eq!(route.ownership, ObjectOwnership::PlatformNative);
}

#[test]
fn route_stage_is_protocol_owned_reversible_and_canonical_bound() {
    let snapshot = reconcile_runtime_route_inventory("[]", None, "boot-1").expect("empty");
    let route = NetworkRoute {
        id: "guest-default".into(),
        ownership: ObjectOwnership::AgentOwned,
        enabled: true,
        destination: IpNetwork {
            address: IpAddr::parse("0.0.0.0").expect("address"),
            prefix_len: 0,
        },
        gateway: Some(IpAddr::parse("192.0.2.1").expect("gateway")),
        output_interface: Some("eth0".into()),
        preferred_source: None,
        table: 100,
        metric: Some(20),
        route_type: NetworkRouteType::Unicast,
    };
    let plan = plan_network_mutations(
        snapshot.inventory(),
        &[NetworkMutation::Create(NetworkObject::Route(route))])
    .expect("plan");
    let stage = stage_of(&snapshot, &plan);
    assert_eq!(
        stage.apply_batch,
        "-4 route add default via 192.0.2.1 dev eth0 table 100 proto 186 metric 20\n"
    );
    assert_eq!(
        stage.rollback_batch,
        "-4 route del default via 192.0.2.1 dev eth0 table 100 proto 186 metric 20\n"
    );
    let reconciled = reconcile_runtime_route_inventory(
        r#"[{"dst":"default","gateway":"192.0.2.1","dev":"eth0","table":100,"metric":20,"protocol":186}]"#,
        Some(&stage.record),
        "boot-1",
    )
    .expect("reconcile");
    assert_eq!(reconciled.inventory().objects.len(), 1);
}

#[test]
fn owned_native_route_without_canonical_state_fails_closed() {
    assert!(matches!(
        reconcile_runtime_route_inventory(
            r#"[{"dst":"192.0.2.0/24","dev":"eth0","protocol":"186"}]"#,
            None,
            "boot-1"
        ),
        Err(RuntimeNetworkInventoryError::NativeDrift)
    ));
}

#[test]
fn policy_rules_use_reserved_priority_range_and_reversible_batch() {
    let rules = r#"[
        {"priority":100,"src":"192.0.2.0/24","table":254,"action":"lookup"},
        {"priority":32000,"src":"192.0.2.0/24","fwmark":"0x1/0xff","table":100,"action":"lookup"}
    ]"#;
    let public = inspect_runtime_policy_inventory(rules, &answers(rules)).expect("policy inventory");
    assert_eq!(public.objects.len(), 1);
    let NetworkObject::PolicyRule(native) = &public.objects[0] else {
        panic!("policy rule expected");
    };
    assert_eq!(native.priority, 100);
    assert_eq!(native.ownership, ObjectOwnership::PlatformNative);

    let snapshot = reconcile_runtime_network_inventory("[]", "[]", &[], None, "boot-1")
        .expect("empty snapshot");
    let rule = NetworkPolicyRule {
        id: "guest-policy".into(),
        ownership: ObjectOwnership::AgentOwned,
        enabled: true,
        family: NetworkFamily::Ipv4,
        priority: 32_000,
        source: Some(IpNetwork {
            address: IpAddr::parse("192.0.2.0").expect("source"),
            prefix_len: 24,
        }),
        destination: None,
        input_interface: None,
        output_interface: None,
        fwmark: Some(1),
        fwmark_mask: Some(255),
        table: 100,
        action: NetworkPolicyAction::Lookup,
    };
    let plan = plan_network_mutations(
        snapshot.inventory(),
        &[NetworkMutation::Create(NetworkObject::PolicyRule(rule))])
    .expect("plan");
    let stage = stage_of(&snapshot, &plan);
    assert_eq!(
        stage.apply_batch,
        "-4 rule add priority 32000 from 192.0.2.0/24 fwmark 0x1/0xff table 100\n"
    );
    let reconciled = reconcile_runtime_network_inventory(
        "[]",
        rules_with_owned_rule(),
        &answers(rules_with_owned_rule()),
        Some(&stage.record),
        "boot-1",
    )
    .expect("reconcile");
    assert_eq!(reconciled.inventory().objects.len(), 1);
}

#[test]
fn runtime_interface_profile_renders_static_address_batch_and_reconciles() {
    let snapshot = reconcile_runtime_network_inventory_with_links(
        r#"[{"ifname":"eth0","flags":["UP"],"mtu":1500}]"#,
        "[]",
        "[]",
        "[]", &VALID, &[],
        None,
        "boot-1",
    )
    .expect("full snapshot");
    let profile = NetworkObject::Interface(NetworkInterfaceConfig {
        id: "agent_eth0".into(),
        ownership: ObjectOwnership::AgentOwned,
        enabled: true,
        device: "eth0".into(),
        ipv4_mode: NetworkAddressMode::Static,
        ipv6_mode: NetworkAddressMode::Disabled,
        addresses: vec![IpNetwork {
            address: IpAddr::parse("192.0.2.10").expect("address"),
            prefix_len: 24,
        }],
        mtu: None,
        mac_override: None,
        peerdns: true,
        dns_servers: Vec::new(),
        dns_search: Vec::new(),
        dhcp_client_id: None,
        dhcp_vendor_id: None,
        dhcp_hostname: None,
        dhcp_request_options: Vec::new(),
        dhcp_no_release: false,
        dhcp_server: None,
    });
    let plan = plan_network_mutations(
        snapshot.inventory(),
        &[NetworkMutation::Create(profile)])
    .expect("plan");
    let stage = stage_of(&snapshot, &plan);
    assert_eq!(stage.apply_batch, "address add 192.0.2.10/24 dev eth0\n");
    assert_eq!(stage.rollback_batch, "address del 192.0.2.10/24 dev eth0\n");
    let reconciled = reconcile_runtime_network_inventory_with_links(
        r#"[{"ifname":"eth0","flags":["UP"],"mtu":1500}]"#,
        r#"[{"ifname":"eth0","addr_info":[{"family":"inet","local":"192.0.2.10","prefixlen":24}]}]"#,
        "[]",
        "[]", &VALID, &[],
        Some(&stage.record),
        "boot-1",
    )
    .expect("reconciled");
    assert!(
        reconciled
            .inventory()
            .objects
            .iter()
            .any(|object| object.id() == "agent_eth0")
    );
}

#[test]
fn runtime_interface_profile_rejects_missing_device() {
    let snapshot = reconcile_runtime_network_inventory_with_links(
        r#"[{"ifname":"eth0","flags":["UP"]}]"#,
        "[]",
        "[]",
        "[]", &VALID, &[],
        None,
        "boot-1",
    )
    .expect("snapshot");
    let profile = NetworkObject::Interface(NetworkInterfaceConfig {
        id: "agent_eth0".into(),
        ownership: ObjectOwnership::AgentOwned,
        enabled: true,
        device: "eth0".into(),
        ipv4_mode: NetworkAddressMode::Static,
        ipv6_mode: NetworkAddressMode::Disabled,
        addresses: vec![IpNetwork {
            address: IpAddr::parse("192.0.2.10").expect("address"),
            prefix_len: 24,
        }],
        mtu: None,
        mac_override: None,
        peerdns: true,
        dns_servers: Vec::new(),
        dns_search: Vec::new(),
        dhcp_client_id: None,
        dhcp_vendor_id: None,
        dhcp_hostname: None,
        dhcp_request_options: Vec::new(),
        dhcp_no_release: false,
        dhcp_server: None,
    });
    let plan = plan_network_mutations(
        snapshot.inventory(),
        &[NetworkMutation::Create(profile)])
    .expect("plan");
    let stage = stage_of(&snapshot, &plan);
    assert!(
        reconcile_runtime_network_inventory_with_links(
            r#"[{"ifname":"eth1","flags":["UP"]}]"#,
            "[]",
            "[]",
            "[]", &VALID, &[],
            Some(&stage.record),
            "boot-1",
        )
        .is_err()
    );
}

#[test]
fn reserved_policy_rule_without_canonical_state_fails_closed() {
    assert!(matches!(
        reconcile_runtime_network_inventory(
            "[]",
            r#"[{"priority":32000,"src":"192.0.2.0/24","table":100,"action":"lookup"}]"#,
            &answers(r#"[{"priority":32000,"src":"192.0.2.0/24","table":100,"action":"lookup"}]"#),
            None,
            "boot-1"
        ),
        Err(RuntimeNetworkInventoryError::NativeDrift)
    ));
}

fn rules_with_owned_rule() -> &'static str {
    r#"[{"priority":32000,"src":"192.0.2.0/24","fwmark":"0x1/0xff","table":100,"action":"lookup"}]"#
}

/// A stage, with the record that its encoding is read back as.
struct Staged {
    apply_batch: String,
    rollback_batch: String,
    record: RuntimeCanonicalRecord,
}

/// What the object model answers on the rules of a document: it accepts each.
fn answers(rules_json: &str) -> Vec<RuleAnswer> {
    runtime_policy_candidates(rules_json)
        .expect("candidates")
        .iter()
        .map(|candidate| RuleAnswer {
            valid: true,
            encoding: format!("{:?}", candidate.rule).into_bytes(),
        })
        .collect()
}

/// The inventory that a plan leads to.
fn projected(inventory: &NetworkInventory, plan: &NetworkMutationPlan) -> NetworkInventory {
    let mut objects = inventory.objects.clone();
    for change in &plan.changes {
        if let Some(before) = &change.before {
            objects.retain(|object| object != before);
        }
        if let Some(after) = &change.after {
            objects.push(after.clone());
        }
    }
    NetworkInventory { objects }
}

fn stage_of(snapshot: &RuntimeRouteSnapshot, plan: &NetworkMutationPlan) -> Staged {
    let inventory = projected(snapshot.inventory(), plan);
    let draft =
        render_runtime_route_stage(snapshot, plan, Some(&inventory), &VALID).expect("stage");
    let canonical = draft.canonical.clone();
    let encoded = format!("{canonical:?}").into_bytes();
    let encoded_bytes = encoded.len();
    let stage = seal_runtime_route_stage(draft, Some(encoded)).expect("seal");
    assert_eq!(stage.projected_canonical_state.len(), encoded_bytes);
    Staged {
        apply_batch: stage.apply_batch,
        rollback_batch: stage.rollback_batch,
        record: RuntimeCanonicalRecord {
            encoded_bytes,
            valid: vec![true; canonical.inventory.objects.len()],
            state: Some(canonical),
        },
    }
}

#[test]
fn kernel_identities_are_digests_of_what_routes_say() {
    let inventory = inspect_runtime_network_inventory(
        "[]",
        "[]",
        r#"[{"dst":"198.51.100.0/24","dev":"eth0","gateway":"192.0.2.1","metric":7}]"#,
        &VALID,
    )
    .expect("inventory");
    let identity = "198.51.100.0|24|Some(192.0.2.1)|Some(\"eth0\")|None|254|Some(7)|Unicast";
    assert_eq!(inventory.objects[0].id(), format!("kernel-{}", &sha256_hex(identity)[..24]));
}

#[test]
fn documents_must_be_lists_and_bounded() {
    for text in ["", "{}", "[", "[1,]", "nonsense"] {
        assert_eq!(
            inspect_runtime_network_inventory(text, "[]", "[]", &VALID),
            Err(RuntimeNetworkInventoryError::Malformed)
        );
    }
    let many = format!("[{}]", vec!["{}"; 257].join(","));
    assert_eq!(
        inspect_runtime_network_inventory("[]", "[]", &many, &VALID),
        Err(RuntimeNetworkInventoryError::Capacity)
    );
    assert_eq!(
        inspect_runtime_network_inventory(r#"[{"ifname":"eth0"}]"#, "[]", "[]", &[false]),
        Err(RuntimeNetworkInventoryError::Unsupported)
    );
}

#[test]
fn json_is_taken_over_value_by_value() {
    let parsed = parse_json(r#"{"b":[true,null,-1,2,"x"],"a":{"c":1.5}}"#).expect("json");
    assert_eq!(
        parsed,
        Json::Object(vec![
            JsonField {
                name: "a".to_owned(),
                value: Json::Object(vec![JsonField {
                    name: "c".to_owned(),
                    value: Json::Number(None),
                }]),
            },
            JsonField {
                name: "b".to_owned(),
                value: Json::List(vec![
                    Json::Bool(true),
                    Json::Null,
                    Json::Number(None),
                    Json::Number(Some(2)),
                    Json::Text("x".to_owned()),
                ]),
            },
        ])
    );
}

fn address_profile(addresses: Vec<&str>) -> NetworkObject {
    NetworkObject::Interface(NetworkInterfaceConfig {
        id: "agent_eth0".into(),
        ownership: ObjectOwnership::AgentOwned,
        enabled: true,
        device: "eth0".into(),
        ipv4_mode: NetworkAddressMode::Static,
        ipv6_mode: NetworkAddressMode::Disabled,
        addresses: addresses
            .iter()
            .map(|text| IpNetwork {
                address: IpAddr::parse(text).expect("address"),
                prefix_len: 24,
            })
            .collect(),
        mtu: None,
        mac_override: None,
        peerdns: true,
        dns_servers: Vec::new(),
        dns_search: Vec::new(),
        dhcp_client_id: None,
        dhcp_vendor_id: None,
        dhcp_hostname: None,
        dhcp_request_options: Vec::new(),
        dhcp_no_release: false,
        dhcp_server: None,
    })
}

#[test]
fn an_update_of_a_profile_moves_its_addresses_and_back() {
    let profile = address_profile;
    let before = profile(vec!["192.0.2.10", "192.0.2.11"]);
    let links = r#"[{"ifname":"eth0","flags":["UP"],"mtu":1500}]"#;
    let empty = reconcile_runtime_network_inventory_with_links(
        links,
        "[]",
        "[]",
        "[]",
        &VALID,
        &[],
        None,
        "boot-1",
    )
    .expect("empty");
    let creation =
        plan_network_mutations(empty.inventory(), &[NetworkMutation::Create(before.clone())])
            .expect("creation");
    let created = stage_of(&empty, &creation);
    let snapshot = reconcile_runtime_network_inventory_with_links(
        links,
        r#"[{"ifname":"eth0","addr_info":[{"family":"inet","local":"192.0.2.10","prefixlen":24},{"family":"inet","local":"192.0.2.11","prefixlen":24}]}]"#,
        "[]",
        "[]",
        &VALID,
        &[],
        Some(&created.record),
        "boot-1",
    )
    .expect("snapshot");
    let plan = plan_network_mutations(
        snapshot.inventory(),
        &[NetworkMutation::Update {
            expected_digest: network_object_digest(&before).expect("digest"),
            desired: profile(vec!["192.0.2.11", "192.0.2.12"]),
        }],
    )
    .expect("plan");
    let stage = stage_of(&snapshot, &plan);
    assert_eq!(
        stage.apply_batch,
        "address del 192.0.2.10/24 dev eth0\naddress add 192.0.2.12/24 dev eth0\n"
    );
    assert_eq!(
        stage.rollback_batch,
        "address del 192.0.2.12/24 dev eth0\naddress add 192.0.2.10/24 dev eth0\n"
    );
    let unaccepted = projected(snapshot.inventory(), &plan);
    assert_eq!(
        render_runtime_route_stage(&snapshot, &plan, Some(&unaccepted), &[false]),
        Err(RuntimeNetworkInventoryError::InvalidPlan)
    );
    assert_eq!(
        render_runtime_route_stage(&snapshot, &plan, None, &VALID),
        Err(RuntimeNetworkInventoryError::InvalidPlan)
    );
}

#[test]
fn records_are_bounded_and_of_a_known_schema() {
    let record = |encoded_bytes, schema_version| RuntimeCanonicalRecord {
        encoded_bytes,
        state: Some(RuntimeRouteCanonicalState {
            schema_version,
            boot_id: "boot-1".into(),
            inventory: NetworkInventory { objects: vec![] },
        }),
        valid: vec![],
    };
    assert_eq!(runtime_canonical_includes_interfaces(&record(10, 2)), Ok(false));
    assert_eq!(
        runtime_canonical_includes_interfaces(&record(10, 3)),
        Err(RuntimeNetworkInventoryError::StaleState)
    );
    assert_eq!(
        runtime_canonical_includes_interfaces(&record(0, 1)),
        Err(RuntimeNetworkInventoryError::Capacity)
    );
    assert_eq!(
        reconcile_runtime_route_inventory("[]", Some(&record(10, 1)), "boot-2"),
        Err(RuntimeNetworkInventoryError::StaleState)
    );
    assert_eq!(
        reconcile_runtime_route_inventory("[]", None, "boot\n"),
        Err(RuntimeNetworkInventoryError::StaleState)
    );
}

#[test]
fn rules_of_reserved_priorities_must_be_understood() {
    let unknown = r#"[{"priority":32001,"src":"192.0.2.0/24","suppress":1}]"#;
    assert_eq!(
        inspect_runtime_policy_inventory(unknown, &[]),
        Err(RuntimeNetworkInventoryError::Unsupported)
    );
    let native = unknown.replace("32001", "31999");
    assert_eq!(
        inspect_runtime_policy_inventory(&native, &[]),
        Ok(NetworkInventory { objects: vec![] })
    );
    let mixed = r#"[{"priority":10,"src":"192.0.2.0/24","family":"inet6"}]"#;
    assert_eq!(
        inspect_runtime_policy_inventory(mixed, &[]),
        Err(RuntimeNetworkInventoryError::Malformed)
    );
}

fn sha256_hex(text: &str) -> String {
    let digest = ring::digest::digest(&ring::digest::SHA256, text.as_bytes());
    digest.as_ref().iter().map(|byte| format!("{byte:02x}")).collect()
}

/// The changes that a planner takes.
#[allow(dead_code)]
enum NetworkMutation {
    Create(NetworkObject),
    Update { expected_digest: String, desired: NetworkObject },
    Move { expected_digest: String, desired: NetworkObject },
    Delete { kind: String, id: String, expected_digest: String },
}

fn network_object_digest(object: &NetworkObject) -> Option<String> {
    Some(sha256_hex(&format!("{object:?}")))
}

fn checks(object: &Option<NetworkObject>) -> ObjectChecks {
    ObjectChecks { valid: true, digest: object.as_ref().and_then(network_object_digest) }
}

/// Plans changes against an inventory, with the object model content with every object.
fn plan_network_mutations(inventory: &NetworkInventory, mutations: &[NetworkMutation]) -> Option<NetworkMutationPlan> {
    let find = |kind: &str, id: &str| {
        inventory
            .objects
            .iter()
            .find(|object| object.kind() == kind && object.id() == id)
            .cloned()
    };
    let mut changes = Vec::new();
    for mutation in mutations {
        let (operation, before, after) = match mutation {
            NetworkMutation::Create(object) => (ChangeOperation::Create, None, Some(object.clone())),
            NetworkMutation::Update { expected_digest, desired } => {
                let before = find(desired.kind(), desired.id())?;
                assert_eq!(network_object_digest(&before).as_ref(), Some(expected_digest));
                (ChangeOperation::Update, Some(before), Some(desired.clone()))
            }
            NetworkMutation::Move { expected_digest, desired } => {
                let before = find(desired.kind(), desired.id())?;
                assert_eq!(network_object_digest(&before).as_ref(), Some(expected_digest));
                (ChangeOperation::Move, Some(before), Some(desired.clone()))
            }
            NetworkMutation::Delete { kind, id, expected_digest } => {
                let before = find(kind, id)?;
                assert_eq!(network_object_digest(&before).as_ref(), Some(expected_digest));
                (ChangeOperation::Delete, Some(before), None)
            }
        };
        let before_checks = checks(&before);
        let after_checks = checks(&after);
        let subject = after.as_ref().or(before.as_ref())?;
        let diff = ObjectDiff {
            operation,
            object: ObjectReference {
                domain: ConfigDomain::Network,
                kind: subject.kind().to_owned(),
                id: subject.id().to_owned(),
                ownership: subject.ownership(),
                expected_version: before_checks.digest.clone(),
            },
            before_digest: before_checks.digest.clone(),
            after_digest: after_checks.digest.clone(),
        };
        changes.push(NetworkPlannedChange { before, after, diff, before_checks, after_checks });
    }
    Some(NetworkMutationPlan { risk: RiskLevel::R2, changes })
}

#[test]
fn inspected_objects_are_the_platforms_own() {
    let rules = r#"[{"priority":32000,"src":"192.0.2.0/24","table":100,"action":"lookup"},{"priority":500,"src":"198.51.100.0/24","table":100,"action":"lookup"}]"#;
    let inventory = inspect_runtime_policy_inventory(rules, &answers(rules)).expect("rules");
    assert_eq!(inventory.objects.len(), 1);
    let NetworkObject::PolicyRule(rule) = &inventory.objects[0] else {
        panic!("rule expected");
    };
    assert_eq!(rule.priority, 500);
    assert_eq!(rule.ownership, ObjectOwnership::PlatformNative);

    let inventory = inspect_runtime_network_inventory(
        r#"[{"ifname":"eth0"},{"ifname":"eth1"}]"#,
        "[]",
        r#"[{"dst":"192.0.2.0/24","dev":"eth0"},{"dst":"203.0.113.0/24","nhid":7}]"#,
        &VALID,
    )
    .expect("inventory");
    assert_eq!(inventory.objects.len(), 3);
    assert!(
        inventory
            .objects
            .iter()
            .all(|object| object.ownership() == ObjectOwnership::PlatformNative)
    );
}

#[test]
fn a_reverse_change_is_the_inverse() {
    let before = address_profile(vec!["192.0.2.10", "192.0.2.11"]);
    let inventory = NetworkInventory { objects: vec![before.clone()] };
    let plan = plan_network_mutations(
        &inventory,
        &[NetworkMutation::Update {
            expected_digest: network_object_digest(&before).expect("digest"),
            desired: address_profile(vec!["192.0.2.11", "192.0.2.12"]),
        }],
    )
    .expect("plan");
    let change = &plan.changes[0];
    let mut swapped = change.clone();
    swapped.before = change.after.clone();
    swapped.after = change.before.clone();
    swapped.before_checks = change.after_checks.clone();
    swapped.after_checks = change.before_checks.clone();
    let mut reverse = String::from("first\n");
    let mut forward = reverse.clone();
    assert_eq!(push_runtime_reverse_change(&mut reverse, change), Ok(()));
    assert_eq!(push_runtime_change(&mut forward, &swapped), Ok(()));
    assert_eq!(reverse, forward);
    assert_eq!(
        reverse,
        "first\naddress del 192.0.2.12/24 dev eth0\naddress add 192.0.2.10/24 dev eth0\n"
    );

    let mut refused = change.clone();
    refused.after_checks.digest = None;
    let mut refused_swapped = swapped.clone();
    refused_swapped.before_checks.digest = None;
    let mut reverse = String::from("first\n");
    let mut forward = reverse.clone();
    assert_eq!(
        push_runtime_reverse_change(&mut reverse, &refused),
        Err(RuntimeNetworkInventoryError::InvalidPlan)
    );
    assert_eq!(
        push_runtime_change(&mut forward, &refused_swapped),
        Err(RuntimeNetworkInventoryError::InvalidPlan)
    );
    assert_eq!(reverse, "first\n");
    assert_eq!(forward, "first\n");
}
