//! Inspection and rendering of the network package.

use platform_linux::change::{
    ChangeOperation, ConfigDomain, ObjectChecks, ObjectDiff, ObjectOwnership, ObjectReference,
    RiskLevel,
};
use platform_linux::net::{IpAddr, IpNetwork};
use platform_linux::network_model::{
    NetworkAddressMode, NetworkBond, NetworkBondMode, NetworkBridge, NetworkDhcpMode,
    NetworkDhcpOption, NetworkDhcpServerConfig, NetworkFamily, NetworkInterfaceConfig,
    NetworkInventory, NetworkMutationPlan, NetworkObject, NetworkPlannedChange, NetworkPolicyAction,
    NetworkPolicyRule, NetworkRoute, NetworkRouteType, NetworkVlan, NetworkVlanProtocol,
};
use platform_linux::network_openwrt::{
    dhcp_candidates, inspect_openwrt_network_inventory, inspect_openwrt_network_inventory_with_dhcp,
    network_candidates, select_openwrt_network_staging, NetworkRenderError,
};
use platform_linux::network_stage::{
    render_openwrt_network_stage_from_snapshot, OpenWrtNetworkValidation,
};
use platform_linux::platform::{
    FirewallBackend, FirewallCapabilities, InitSystem, NetworkDeviceModel, PackageManager,
    PlatformCapabilities, PlatformKind,
};

/// The object model is content with everything.
const VALID: [bool; 64] = [true; 64];
const NETWORK_FIXTURE: &str = "network.lan=interface\n\
network.lan.proto='static'\n\
network.lan.device='br-lan'\n\
network.lan.ipaddr='192.168.1.1'\n\
network.lan.netmask='255.255.255.0'\n\
network.lan.mtu='1500'\n\
network.lan.peerdns='0'\n\
network.lan.dns='1.1.1.1' '2606:4700:4700::1111'\n\
network.lan.dns_search='example.com'\n\
network.lan.clientid='01:02:03:04:05:06'\n\
network.lan.vendorid='mbed-router'\n\
network.lan.hostname='lan-router'\n\
network.lan.reqopts='1' '3' '6'\n\
network.lan.norelease='1'\n\
network.lan.vendor_keep='yes'\n\
network.@device[0]=device\n\
network.@device[0].name='br-lan'\n\
network.@device[0].type='bridge'\n\
network.@device[0].ports='lan1' 'lan2'\n\
network.@device[0].stp='1'\n\
network.@device[1]=device\n\
network.@device[1].name='eth0.100'\n\
network.@device[1].type='8021q'\n\
network.@device[1].ifname='eth0'\n\
network.@device[1].vid='100'\n\
network.@route[0]=route\n\
network.@route[0].name='guest-route'\n\
network.@route[0].interface='lan'\n\
network.@route[0].target='198.51.100.0'\n\
network.@route[0].netmask='255.255.255.0'\n\
network.@route[0].gateway='192.168.1.254'\n\
network.@route[0].table='100'\n\
network.@rule[0]=rule\n\
network.@rule[0].name='guest-policy'\n\
network.@rule[0].priority='1000'\n\
network.@rule[0].src='192.168.1.0/24'\n\
network.@rule[0].mark='0x1/0xff'\n\
network.@rule[0].lookup='100'\n";

const DHCP_FIXTURE: &str = "dhcp.lan=dhcp\n\
dhcp.lan.interface='lan'\n\
dhcp.lan.start='100'\n\
dhcp.lan.limit='100'\n\
dhcp.lan.leasetime='12h'\n\
dhcp.lan.force='1'\n\
dhcp.lan.dhcpv6='server'\n\
dhcp.lan.ra='hybrid'\n\
dhcp.lan.ndp='relay'\n\
dhcp.lan.dhcp_option='6,192.168.1.1' '15,example.com'\n\
dhcp.lan.vendor_keep='yes'\n";

fn guest_interface(ownership: ObjectOwnership) -> NetworkObject {
    NetworkObject::Interface(NetworkInterfaceConfig {
        id: "guest".into(),
        ownership,
        enabled: true,
        device: "br-guest".into(),
        ipv4_mode: NetworkAddressMode::Static,
        ipv6_mode: NetworkAddressMode::Disabled,
        addresses: vec![IpNetwork {
            address: IpAddr::v4(192, 0, 2, 1),
            prefix_len: 24,
        }],
        mtu: Some(1500),
        mac_override: None,
        peerdns: false,
        dns_servers: vec![
            IpAddr::parse("9.9.9.9").expect("DNS server"),
            IpAddr::parse("2620:fe::fe").expect("DNS server"),
        ],
        dns_search: vec!["guest.example".into()],
        dhcp_client_id: Some("mbed-guest-client".into()),
        dhcp_vendor_id: Some("mbed-agent".into()),
        dhcp_hostname: Some("guest-router".into()),
        dhcp_request_options: vec![1, 3, 6],
        dhcp_no_release: true,
        dhcp_server: Some(NetworkDhcpServerConfig {
            enabled: true,
            start: 100,
            limit: 100,
            lease_time: "12h".into(),
            force: false,
            dhcpv6_mode: NetworkDhcpMode::Disabled,
            ra_mode: NetworkDhcpMode::Disabled,
            ndp_mode: NetworkDhcpMode::Disabled,
            dhcp_options: vec![NetworkDhcpOption {
                code: 6,
                value: "192.0.2.53".into(),
            }],
        }),
    })
}

fn staging_capabilities(kind: PlatformKind, supported: bool) -> PlatformCapabilities {
    PlatformCapabilities {
        kind,
        release: Some("21.02.7".into()),
        release_supported: supported,
        firewall: FirewallCapabilities {
            backend: FirewallBackend::Fw3,
            has_iptables_save: true,
            has_ip6tables_save: true,
            has_nft: false,
            can_trace: false,
        },
        device_model: NetworkDeviceModel::Dsa,
        package_manager: PackageManager::Opkg,
        init_system: InitSystem::Procd,
        has_ubus: true,
        has_uci: true,
        has_procd: true,
        available_commands: vec!["uci".into(), "ubus".into()],
        warnings: Vec::new(),
    }
}

#[test]
fn selects_only_supported_openwrt_21_plus_staging() {
    assert_eq!(
        select_openwrt_network_staging(&staging_capabilities(PlatformKind::OpenWrt, true)),
        Ok(NetworkDeviceModel::Dsa)
    );
    assert_eq!(
        select_openwrt_network_staging(&staging_capabilities(PlatformKind::OpenWrt, false)),
        Err(NetworkRenderError::BackendUnavailable)
    );
    assert_eq!(
        select_openwrt_network_staging(&staging_capabilities(PlatformKind::GenericLinux, true)),
        Err(NetworkRenderError::BackendUnavailable)
    );
}

#[test]
fn reconstructs_supported_openwrt_network_objects_and_bindings() {
    let snapshot = inspect_openwrt_network_inventory(NETWORK_FIXTURE, &VALID).expect("inventory");
    assert_eq!(snapshot.inventory().objects.len(), 5);
    assert_eq!(snapshot.bindings().len(), 5);
    assert!(snapshot.read_only_sections().is_empty());

    let interface = snapshot
        .inventory()
        .objects
        .iter()
        .find(|object| object.kind() == "interface")
        .expect("interface");
    let NetworkObject::Interface(interface) = interface else {
        unreachable!();
    };
    assert_eq!(interface.id, "lan");
    assert_eq!(interface.ownership, ObjectOwnership::PlatformNative);
    assert_eq!(interface.addresses[0].prefix_len, 24);
    assert!(!interface.peerdns);
    assert_eq!(interface.dns_servers.len(), 2);
    assert_eq!(interface.dns_search, ["example.com"]);
    assert_eq!(
        interface.dhcp_client_id.as_deref(),
        Some("01:02:03:04:05:06")
    );
    assert_eq!(interface.dhcp_vendor_id.as_deref(), Some("mbed-router"));
    assert_eq!(interface.dhcp_hostname.as_deref(), Some("lan-router"));
    assert_eq!(interface.dhcp_request_options, [1, 3, 6]);
    assert!(interface.dhcp_no_release);

    let rule = snapshot
        .inventory()
        .objects
        .iter()
        .find(|object| object.kind() == "policy_rule")
        .expect("rule");
    let NetworkObject::PolicyRule(rule) = rule else {
        unreachable!();
    };
    assert_eq!(rule.fwmark, Some(1));
    assert_eq!(rule.fwmark_mask, Some(255));
}

#[test]
fn reconstructs_and_binds_openwrt_dhcp_server_subset() {
    let snapshot = inspect_openwrt_network_inventory_with_dhcp(NETWORK_FIXTURE, DHCP_FIXTURE, &VALID, &VALID)
        .expect("inventory");
    assert_eq!(snapshot.dhcp_occupied_sections(), ["lan"]);
    assert!(snapshot.dhcp_read_only_sections().is_empty());
    let interface = snapshot
        .inventory()
        .objects
        .iter()
        .find_map(|object| match object {
            NetworkObject::Interface(value) if value.id == "lan" => Some(value),
            _ => None,
        })
        .expect("lan interface");
    assert_eq!(
        interface.dhcp_server,
        Some(NetworkDhcpServerConfig {
            enabled: true,
            start: 100,
            limit: 100,
            lease_time: "12h".into(),
            force: true,
            dhcpv6_mode: NetworkDhcpMode::Server,
            ra_mode: NetworkDhcpMode::Hybrid,
            ndp_mode: NetworkDhcpMode::Relay,
            dhcp_options: vec![
                NetworkDhcpOption {
                    code: 6,
                    value: "192.168.1.1".into(),
                },
                NetworkDhcpOption {
                    code: 15,
                    value: "example.com".into(),
                },
            ],
        })
    );
    let binding = snapshot
        .bindings()
        .iter()
        .find(|binding| binding.id == "lan")
        .expect("lan binding");
    assert_eq!(binding.dhcp_section.as_deref(), Some("lan"));
    assert!(!binding.dhcp_agent_owned);
    assert!(
        binding
            .dhcp_present_options
            .iter()
            .any(|option| option == "vendor_keep")
    );
}

#[test]
fn rejects_unknown_dhcp_modes_without_claiming_native_sections() {
    let native = "dhcp.lan=dhcp\n\
dhcp.lan.interface='lan'\n\
dhcp.lan.dhcpv6='unknown'\n";
    let snapshot = inspect_openwrt_network_inventory_with_dhcp(NETWORK_FIXTURE, native, &VALID, &VALID)
        .expect("native unknown mode is read-only");
    assert_eq!(snapshot.dhcp_read_only_sections(), ["lan"]);
    let interface = snapshot
        .inventory()
        .objects
        .iter()
        .find_map(|object| match object {
            NetworkObject::Interface(value) if value.id == "lan" => Some(value),
            _ => None,
        })
        .expect("lan interface");
    assert!(interface.dhcp_server.is_none());
    let binding = snapshot
        .bindings()
        .iter()
        .find(|binding| binding.id == "lan")
        .expect("lan binding");
    assert!(binding.dhcp_section.is_none());

    let managed = "dhcp.mbed_lan=dhcp\n\
dhcp.mbed_lan.mbed_managed='1'\n\
dhcp.mbed_lan.interface='lan'\n\
dhcp.mbed_lan.ra='unknown'\n";
    assert_eq!(
        inspect_openwrt_network_inventory_with_dhcp(NETWORK_FIXTURE, managed, &VALID, &VALID),
        Err(NetworkRenderError::UnsupportedManagedSection(
            "mbed_lan".into()
        ))
    );
}

#[test]
fn rejects_malformed_dhcp_options_without_claiming_sections() {
    let native = "dhcp.lan=dhcp\n\
dhcp.lan.interface='lan'\n\
dhcp.lan.dhcp_option='6,1.1.1.1,8.8.8.8'\n";
    let snapshot = inspect_openwrt_network_inventory_with_dhcp(NETWORK_FIXTURE, native, &VALID, &VALID)
        .expect("native malformed option is read-only");
    assert_eq!(snapshot.dhcp_read_only_sections(), ["lan"]);

    let managed = "dhcp.mbed_lan=dhcp\n\
dhcp.mbed_lan.mbed_managed='1'\n\
dhcp.mbed_lan.interface='lan'\n\
dhcp.mbed_lan.dhcp_option='6,1.1.1.1,8.8.8.8'\n";
    assert_eq!(
        inspect_openwrt_network_inventory_with_dhcp(NETWORK_FIXTURE, managed, &VALID, &VALID),
        Err(NetworkRenderError::UnsupportedManagedSection(
            "mbed_lan".into()
        ))
    );
}

#[test]
fn unsupported_native_sections_are_read_only_but_managed_drift_fails_closed() {
    let native =
        "network.wan=interface\nnetwork.wan.proto='pppoe'\nnetwork.wan.device='eth0'\n";
    let snapshot = inspect_openwrt_network_inventory(native, &VALID).expect("native read-only");
    assert!(snapshot.inventory().objects.is_empty());
    assert_eq!(snapshot.read_only_sections(), ["wan"]);

    let managed = "network.mbed_bad=interface\nnetwork.mbed_bad.mbed_managed='1'\nnetwork.mbed_bad.proto='pppoe'\nnetwork.mbed_bad.device='eth0'\n";
    assert_eq!(
        inspect_openwrt_network_inventory(managed, &VALID),
        Err(NetworkRenderError::UnsupportedManagedSection(
            "mbed_bad".into()
        ))
    );
    assert!(
        inspect_openwrt_network_inventory("network.mbed_bad=interface\nnetwork.mbed_bad.proto='none'\nnetwork.mbed_bad.device='eth0'\n", &VALID)
        .is_err()
    );
}

#[test]
fn creates_agent_owned_interface_with_closed_staging_batch() {
    let snapshot = inspect_openwrt_network_inventory("", &VALID).expect("empty inventory");
    let plan = plan_network_mutations(
        snapshot.inventory(),
        &[NetworkMutation::Create(guest_interface(
            ObjectOwnership::AgentOwned,
        ))])
    .expect("plan");
    let stage = render_openwrt_network_stage_from_snapshot(&plan, &snapshot).expect("stage");
    assert!(stage.uci_batch.starts_with("set network.guest=interface\n"));
    assert!(stage.uci_batch.contains("network.guest.mbed_managed='1'"));
    assert!(stage.uci_batch.contains("network.guest.proto='static'"));
    assert!(
        stage
            .uci_batch
            .contains("add_list network.guest.ipaddr='192.0.2.1/24'")
    );
    assert!(stage.uci_batch.contains("network.guest.peerdns='0'"));
    assert!(
        stage
            .uci_batch
            .contains("network.guest.clientid='mbed-guest-client'")
    );
    assert!(
        stage
            .uci_batch
            .contains("network.guest.vendorid='mbed-agent'")
    );
    assert!(
        stage
            .uci_batch
            .contains("network.guest.hostname='guest-router'")
    );
    assert!(stage.uci_batch.contains("network.guest.norelease='1'"));
    assert!(
        stage
            .uci_batch
            .contains("add_list network.guest.dns='9.9.9.9'")
    );
    assert!(
        stage
            .uci_batch
            .contains("add_list network.guest.reqopts='1'")
    );
    assert!(
        stage
            .uci_batch
            .contains("add_list network.guest.dns_search='guest.example'")
    );
    assert!(stage.dhcp_uci_batch.contains("set dhcp.guest=dhcp"));
    assert!(
        stage
            .dhcp_uci_batch
            .contains("dhcp.guest.interface='guest'")
    );
    assert!(stage.dhcp_uci_batch.contains("dhcp.guest.start='100'"));
    assert!(stage.dhcp_uci_batch.contains("dhcp.guest.limit='100'"));
    assert!(stage.dhcp_uci_batch.contains("dhcp.guest.leasetime='12h'"));
    assert!(
        stage
            .dhcp_uci_batch
            .contains("dhcp.guest.dhcpv6='disabled'")
    );
    assert!(stage.dhcp_uci_batch.contains("dhcp.guest.ra='disabled'"));
    assert!(stage.dhcp_uci_batch.contains("dhcp.guest.ndp='disabled'"));
    assert!(
        stage
            .dhcp_uci_batch
            .contains("add_list dhcp.guest.dhcp_option='6,192.0.2.53'")
    );
    assert!(stage.dhcp_uci_batch.ends_with("commit dhcp\n"));
    assert!(stage.uci_batch.ends_with("commit network\n"));
    assert_eq!(stage.validations, [OpenWrtNetworkValidation::UciExport]);
}

#[test]
fn updates_platform_native_interface_without_claiming_or_deleting_vendor_options() {
    let snapshot = inspect_openwrt_network_inventory(NETWORK_FIXTURE, &VALID).expect("inventory");
    let before = snapshot
        .inventory()
        .objects
        .iter()
        .find(|object| object.kind() == "interface")
        .expect("interface")
        .clone();
    let digest = network_object_digest(&before).expect("digest");
    let mut desired = before;
    let NetworkObject::Interface(value) = &mut desired else {
        unreachable!();
    };
    value.mtu = Some(1400);
    let plan = plan_network_mutations(
        snapshot.inventory(),
        &[NetworkMutation::Update {
            expected_digest: digest,
            desired,
        }])
    .expect("plan");
    let stage = render_openwrt_network_stage_from_snapshot(&plan, &snapshot).expect("stage");
    assert!(stage.uci_batch.contains("delete network.lan.mtu"));
    assert!(stage.uci_batch.contains("set network.lan.mtu='1400'"));
    assert!(!stage.uci_batch.contains("vendor_keep"));
    assert!(!stage.uci_batch.contains("mbed_managed"));
}

#[test]
fn renders_bridge_vlan_route_and_policy_rule_without_raw_expressions() {
    let snapshot = inspect_openwrt_network_inventory("", &VALID).expect("empty");
    let objects = vec![
        NetworkObject::Bridge(NetworkBridge {
            id: "br-guest".into(),
            ownership: ObjectOwnership::AgentOwned,
            enabled: true,
            ports: vec!["lan3".into()],
            stp: true,
            vlan_filtering: false,
            mtu: Some(1500),
        }),
        NetworkObject::Vlan(NetworkVlan {
            id: "eth0.200".into(),
            ownership: ObjectOwnership::AgentOwned,
            enabled: true,
            parent: "eth0".into(),
            vlan_id: 200,
            protocol: NetworkVlanProtocol::Ieee8021Q,
            mtu: Some(1500),
        }),
        NetworkObject::Route(NetworkRoute {
            id: "guest-route".into(),
            ownership: ObjectOwnership::AgentOwned,
            enabled: true,
            destination: IpNetwork {
                address: IpAddr::v4(203, 0, 113, 0),
                prefix_len: 24,
            },
            gateway: Some(IpAddr::v4(192, 0, 2, 254)),
            output_interface: Some("guest".into()),
            preferred_source: None,
            table: 100,
            metric: Some(20),
            route_type: NetworkRouteType::Unicast,
        }),
        NetworkObject::PolicyRule(NetworkPolicyRule {
            id: "guest-policy".into(),
            ownership: ObjectOwnership::AgentOwned,
            enabled: true,
            family: NetworkFamily::Ipv4,
            priority: 1000,
            source: Some(IpNetwork {
                address: IpAddr::v4(192, 0, 2, 0),
                prefix_len: 24,
            }),
            destination: None,
            input_interface: None,
            output_interface: None,
            fwmark: Some(1),
            fwmark_mask: Some(255),
            table: 100,
            action: NetworkPolicyAction::Lookup,
        }),
    ];
    let mutations: Vec<_> = objects.into_iter().map(NetworkMutation::Create).collect();
    let plan = plan_network_mutations(
        snapshot.inventory(),
        &mutations)
    .expect("plan");
    let stage = render_openwrt_network_stage_from_snapshot(&plan, &snapshot).expect("stage");
    assert!(stage.uci_batch.contains(".type='bridge'"));
    assert!(stage.uci_batch.contains(".type='8021q'"));
    assert!(stage.uci_batch.contains(".vid='200'"));
    assert!(stage.uci_batch.contains(".target='203.0.113.0/24'"));
    assert!(stage.uci_batch.contains(".mark='0x1/0xff'"));
    assert!(!stage.uci_batch.contains(';'));
}

#[test]
fn rejects_unsupported_bond_and_stale_snapshot() {
    let snapshot = inspect_openwrt_network_inventory("", &VALID).expect("empty");
    let bond = NetworkObject::Bond(NetworkBond {
        id: "bond0".into(),
        ownership: ObjectOwnership::AgentOwned,
        enabled: true,
        ports: vec!["eth0".into(), "eth1".into()],
        mode: NetworkBondMode::ActiveBackup,
        primary: Some("eth0".into()),
        monitor_interval_ms: 100,
        mtu: Some(1500),
    });
    let plan = plan_network_mutations(
        snapshot.inventory(),
        &[NetworkMutation::Create(bond)])
    .expect("core plan");
    assert_eq!(
        render_openwrt_network_stage_from_snapshot(&plan, &snapshot),
        Err(NetworkRenderError::UnsupportedField("bond"))
    );

    let planned_from_empty = plan_network_mutations(
        &NetworkInventory { objects: vec![] },
        &[NetworkMutation::Create(guest_interface(
            ObjectOwnership::AgentOwned,
        ))])
    .expect("plan");
    let occupied = inspect_openwrt_network_inventory("network.guest=interface\nnetwork.guest.proto='none'\nnetwork.guest.device='br-guest'\n", &VALID)
    .expect("occupied");
    assert_eq!(
        render_openwrt_network_stage_from_snapshot(&planned_from_empty, &occupied),
        Err(NetworkRenderError::PlanMismatch)
    );
}

fn sha256_hex(text: &str) -> String {
    let digest = ring::digest::digest(&ring::digest::SHA256, text.as_bytes());
    digest.as_ref().iter().map(|byte| format!("{byte:02x}")).collect()
}

/// The changes that a planner takes.
#[allow(dead_code)]
enum NetworkMutation {
    Create(NetworkObject),
    Update { expected_digest: String, desired: NetworkObject },
    Move { expected_digest: String, desired: NetworkObject },
    Delete { kind: String, id: String, expected_digest: String },
}

fn network_object_digest(object: &NetworkObject) -> Option<String> {
    Some(sha256_hex(&format!("{object:?}")))
}

fn checks(object: &Option<NetworkObject>) -> ObjectChecks {
    ObjectChecks { valid: true, digest: object.as_ref().and_then(network_object_digest) }
}

/// Plans changes against an inventory, with the object model content with every object.
fn plan_network_mutations(inventory: &NetworkInventory, mutations: &[NetworkMutation]) -> Option<NetworkMutationPlan> {
    let find = |kind: &str, id: &str| {
        inventory
            .objects
            .iter()
            .find(|object| object.kind() == kind && object.id() == id)
            .cloned()
    };
    let mut changes = Vec::new();
    for mutation in mutations {
        let (operation, before, after) = match mutation {
            NetworkMutation::Create(object) => (ChangeOperation::Create, None, Some(object.clone())),
            NetworkMutation::Update { expected_digest, desired } => {
                let before = find(desired.kind(), desired.id())?;
                assert_eq!(network_object_digest(&before).as_ref(), Some(expected_digest));
                (ChangeOperation::Update, Some(before), Some(desired.clone()))
            }
            NetworkMutation::Move { expected_digest, desired } => {
                let before = find(desired.kind(), desired.id())?;
                assert_eq!(network_object_digest(&before).as_ref(), Some(expected_digest));
                (ChangeOperation::Move, Some(before), Some(desired.clone()))
            }
            NetworkMutation::Delete { kind, id, expected_digest } => {
                let before = find(kind, id)?;
                assert_eq!(network_object_digest(&before).as_ref(), Some(expected_digest));
                (ChangeOperation::Delete, Some(before), None)
            }
        };
        let before_checks = checks(&before);
        let after_checks = checks(&after);
        let subject = after.as_ref().or(before.as_ref())?;
        let diff = ObjectDiff {
            operation,
            object: ObjectReference {
                domain: ConfigDomain::Network,
                kind: subject.kind().to_owned(),
                id: subject.id().to_owned(),
                ownership: subject.ownership(),
                expected_version: before_checks.digest.clone(),
            },
            before_digest: before_checks.digest.clone(),
            after_digest: after_checks.digest.clone(),
        };
        changes.push(NetworkPlannedChange { before, after, diff, before_checks, after_checks });
    }
    Some(NetworkMutationPlan { risk: RiskLevel::R2, changes })
}

/// What a package shows once a batch was applied to what it showed before.
fn shown(before: &str, batch: &str) -> String {
    let mut entries: Vec<(String, String)> = before
        .lines()
        .filter_map(|line| line.trim().split_once('='))
        .map(|(key, value)| (key.to_owned(), value.to_owned()))
        .collect();
    let section = |key: &str| key.split('.').take(2).collect::<Vec<_>>().join(".");
    for line in batch.lines() {
        let (verb, rest) = line.split_once(' ').expect("command");
        match verb {
            "delete" => {
                let below = format!("{rest}.");
                entries.retain(|(key, _)| key != rest && !key.starts_with(&below));
            }
            "set" | "add_list" => {
                let (key, value) = rest.split_once('=').expect("assignment");
                if let Some(found) = entries.iter_mut().find(|(name, _)| name == key) {
                    assert_eq!(verb, "add_list");
                    found.1 = format!("{} {value}", found.1);
                } else {
                    let at = entries
                        .iter()
                        .rposition(|(name, _)| section(name) == section(key))
                        .map_or(entries.len(), |index| index + 1);
                    entries.insert(at, (key.to_owned(), value.to_owned()));
                }
            }
            _ => assert_eq!(verb, "commit"),
        }
    }
    entries.iter().map(|(key, value)| format!("{key}={value}\n")).collect()
}

#[test]
fn written_network_objects_are_read_back() {
    let snapshot = inspect_openwrt_network_inventory_with_dhcp("", "", &VALID, &VALID)
        .expect("empty inventory");
    let objects = vec![
        guest_interface(ObjectOwnership::AgentOwned),
        NetworkObject::Bridge(NetworkBridge {
            id: "br-guest".into(),
            ownership: ObjectOwnership::AgentOwned,
            enabled: false,
            ports: vec!["lan3".into(), "lan4".into()],
            stp: true,
            vlan_filtering: true,
            mtu: Some(1500),
        }),
        NetworkObject::Vlan(NetworkVlan {
            id: "eth0.200".into(),
            ownership: ObjectOwnership::AgentOwned,
            enabled: true,
            parent: "eth0".into(),
            vlan_id: 200,
            protocol: NetworkVlanProtocol::Ieee8021Ad,
            mtu: None,
        }),
        NetworkObject::Route(NetworkRoute {
            id: "guest-route".into(),
            ownership: ObjectOwnership::AgentOwned,
            enabled: true,
            destination: IpNetwork {
                address: IpAddr::parse("2001:db8:0:1::").expect("address"),
                prefix_len: 64,
            },
            gateway: IpAddr::parse("fe80::1"),
            output_interface: Some("guest".into()),
            preferred_source: None,
            table: 100,
            metric: Some(20),
            route_type: NetworkRouteType::Unicast,
        }),
        NetworkObject::PolicyRule(NetworkPolicyRule {
            id: "guest-policy".into(),
            ownership: ObjectOwnership::AgentOwned,
            enabled: true,
            family: NetworkFamily::Ipv4,
            priority: 1000,
            source: Some(IpNetwork { address: IpAddr::v4(192, 0, 2, 0), prefix_len: 24 }),
            destination: None,
            input_interface: Some("guest".into()),
            output_interface: None,
            fwmark: Some(0x1f),
            fwmark_mask: Some(0xff),
            table: 100,
            action: NetworkPolicyAction::Lookup,
        }),
    ];
    let mutations: Vec<_> = objects.iter().cloned().map(NetworkMutation::Create).collect();
    let plan = plan_network_mutations(snapshot.inventory(), &mutations).expect("plan");
    let stage = render_openwrt_network_stage_from_snapshot(&plan, &snapshot).expect("stage");
    let network = shown("", &stage.uci_batch);
    let dhcp = shown("", &stage.dhcp_uci_batch);
    let after = inspect_openwrt_network_inventory_with_dhcp(&network, &dhcp, &VALID, &VALID)
        .expect("inspect again");
    assert_eq!(after.inventory().objects, objects);
    assert!(after.read_only_sections().is_empty());
}

#[test]
fn every_network_section_is_accounted_for() {
    let text = format!("{NETWORK_FIXTURE}network.globals=globals\nnetwork.globals.ula='auto'\n");
    let snapshot = inspect_openwrt_network_inventory(&text, &VALID).expect("inspect");
    let mut sections: Vec<&str> =
        snapshot.bindings().iter().map(|binding| binding.section.as_str()).collect();
    sections.extend(snapshot.read_only_sections().iter().map(String::as_str));
    sections.sort_unstable();
    assert_eq!(
        sections,
        ["@device[0]", "@device[1]", "@route[0]", "@rule[0]", "globals", "lan"]
    );
}

#[test]
fn candidates_are_what_the_sections_hold() {
    let network = network_candidates(NETWORK_FIXTURE).expect("network candidates");
    let snapshot = inspect_openwrt_network_inventory(NETWORK_FIXTURE, &VALID).expect("inspect");
    let objects: Vec<NetworkObject> =
        network.into_iter().filter_map(|candidate| candidate.object).collect();
    assert_eq!(&objects, &snapshot.inventory().objects);

    let dhcp = dhcp_candidates(NETWORK_FIXTURE, DHCP_FIXTURE, &VALID).expect("DHCP candidates");
    assert_eq!(dhcp.len(), 1);
    let joined = inspect_openwrt_network_inventory_with_dhcp(
        NETWORK_FIXTURE,
        DHCP_FIXTURE,
        &VALID,
        &VALID,
    )
    .expect("inspect both");
    assert_eq!(dhcp[0].object.as_ref(), Some(&joined.inventory().objects[0]));
}

#[test]
fn several_values_of_a_dhcp_option_are_not_read_as_the_default() {
    for option in ["ignore", "start", "limit", "leasetime", "force", "dhcpv6", "ra", "ndp"] {
        let section = |managed: &str| {
            format!("dhcp.lan=dhcp\ndhcp.lan.interface='lan'\n{managed}dhcp.lan.{option}='1' '1'\n")
        };
        let native = inspect_openwrt_network_inventory_with_dhcp(
            NETWORK_FIXTURE,
            &section(""),
            &VALID,
            &VALID,
        )
        .expect("native");
        assert_eq!(native.dhcp_read_only_sections(), ["lan"]);
        assert!(native.bindings().iter().all(|binding| binding.dhcp_section.is_none()));
        assert_eq!(
            inspect_openwrt_network_inventory_with_dhcp(
                NETWORK_FIXTURE,
                &section("dhcp.lan.mbed_managed='1'\n"),
                &VALID,
                &VALID,
            ),
            Err(NetworkRenderError::UnsupportedManagedSection("lan".into()))
        );
    }
}

#[test]
fn a_vendor_list_option_leaves_a_dhcp_section_readable() {
    for (managed, owned) in [("", false), ("dhcp.lan.mbed_managed='1'\n", true)] {
        let shown = format!(
            "dhcp.lan=dhcp\ndhcp.lan.interface='lan'\n{managed}dhcp.lan.start='20'\n\
             dhcp.lan.ra_flags='managed-config' 'other-config'\n"
        );
        let snapshot =
            inspect_openwrt_network_inventory_with_dhcp(NETWORK_FIXTURE, &shown, &VALID, &VALID)
                .expect("inspect");
        assert!(snapshot.dhcp_read_only_sections().is_empty());
        let server = snapshot
            .inventory()
            .objects
            .iter()
            .find_map(|object| match object {
                NetworkObject::Interface(value) if value.id == "lan" => value.dhcp_server.clone(),
                _ => None,
            })
            .expect("server");
        assert_eq!(server.start, 20);
        assert_eq!(server.limit, 150);
        let binding = snapshot
            .bindings()
            .iter()
            .find(|binding| binding.id == "lan")
            .expect("lan binding");
        assert_eq!(binding.dhcp_section.as_deref(), Some("lan"));
        assert_eq!(binding.dhcp_agent_owned, owned);
        assert!(binding.dhcp_present_options.iter().any(|option| option == "ra_flags"));
    }
}
