//! Inspection of the firewall package.

use platform_linux::change::ObjectOwnership;
use platform_linux::firewall_error::FirewallRenderError;
use platform_linux::firewall_inventory::inspect_openwrt_firewall_inventory;
use platform_linux::firewall_model::{
    FirewallDirection, FirewallNatKind, FirewallObject, FirewallVerdict,
};

/// The object model is content with everything.
const VALID: [bool; 64] = [true; 64];
#[test]
fn reconstructs_typed_openwrt_inventory_and_exact_bindings() {
    let snapshot = inspect_openwrt_firewall_inventory(
        "firewall.@defaults[0]=defaults\n\
         firewall.@defaults[0].input='REJECT'\n\
         firewall.@defaults[0].output='ACCEPT'\n\
         firewall.@defaults[0].forward='REJECT'\n\
         firewall.@zone[0]=zone\n\
         firewall.@zone[0].name='lan'\n\
         firewall.@zone[0].network='lan' 'guest'\n\
         firewall.@zone[0].input='ACCEPT'\n\
         firewall.@forwarding[0]=forwarding\n\
         firewall.@forwarding[0].src='lan'\n\
         firewall.@forwarding[0].dest='wan'\n\
         firewall.mbed_r_0123456789abcdef=rule\n\
         firewall.mbed_r_0123456789abcdef.name='block-camera'\n\
         firewall.mbed_r_0123456789abcdef.enabled='1'\n\
         firewall.mbed_r_0123456789abcdef.family='ipv4'\n\
         firewall.mbed_r_0123456789abcdef.src='lan'\n\
         firewall.mbed_r_0123456789abcdef.dest='wan'\n\
         firewall.mbed_r_0123456789abcdef.proto='tcp udp'\n\
         firewall.mbed_r_0123456789abcdef.src_mac='AA:BB:CC:DD:EE:FF'\n\
         firewall.mbed_r_0123456789abcdef.dest_port='443-445'\n\
         firewall.mbed_r_0123456789abcdef.target='DROP'\n\
         firewall.vendor=include\n\
         firewall.vendor.path='/etc/firewall.user'\n", &VALID)
    .expect("inventory");

    assert_eq!(snapshot.inventory().objects.len(), 3);
    assert_eq!(snapshot.bindings().len(), 3);
    assert_eq!(snapshot.read_only_sections(), ["vendor"]);
    assert_eq!(snapshot.occupied_sections().len(), 5);
    let rule = snapshot
        .inventory()
        .objects
        .iter()
        .find_map(|object| match object {
            FirewallObject::FilterRule(rule) => Some(rule),
            _ => None,
        })
        .expect("managed rule");
    assert_eq!(rule.ownership, ObjectOwnership::AgentOwned);
    assert_eq!(rule.direction, FirewallDirection::Forward);
    assert_eq!(rule.matches.protocols.len(), 2);
    assert_eq!(rule.matches.source_macs, ["aa:bb:cc:dd:ee:ff"]);
    assert_eq!(rule.matches.destination_ports[0].end, 445);
}

#[test]
fn unsupported_platform_sections_are_read_only_but_managed_drift_fails_closed() {
    let platform = inspect_openwrt_firewall_inventory(
        "firewall.vendor_rule=rule\n\
         firewall.vendor_rule.name='unsupported'\n\
         firewall.vendor_rule.proto='all'\n\
         firewall.vendor_rule.target='ACCEPT'\n", &VALID)
    .expect("read-only platform rule");
    assert!(platform.inventory().objects.is_empty());
    assert_eq!(platform.read_only_sections(), ["vendor_rule"]);

    assert!(matches!(
        inspect_openwrt_firewall_inventory(
            "firewall.mbed_r_0123456789abcdef=rule\n\
             firewall.mbed_r_0123456789abcdef.name='drifted'\n\
             firewall.mbed_r_0123456789abcdef.proto='all'\n\
             firewall.mbed_r_0123456789abcdef.target='ACCEPT'\n", &VALID),
        Err(FirewallRenderError::UnsupportedManagedSection(_))
    ));
}

#[test]
fn reconstructs_ipset_and_nat_without_guessing_unsupported_shapes() {
    let snapshot = inspect_openwrt_firewall_inventory(
        "firewall.mbed_s_0123456789abcdef=ipset\n\
         firewall.mbed_s_0123456789abcdef.name='blocked'\n\
         firewall.mbed_s_0123456789abcdef.family='ipv4'\n\
         firewall.mbed_s_0123456789abcdef.match='src_net'\n\
         firewall.mbed_s_0123456789abcdef.entry='198.51.100.0/24' '203.0.113.0/24'\n\
         firewall.mbed_n_0123456789abcdef=redirect\n\
         firewall.mbed_n_0123456789abcdef.name='https'\n\
         firewall.mbed_n_0123456789abcdef.family='ipv4'\n\
         firewall.mbed_n_0123456789abcdef.src='wan'\n\
         firewall.mbed_n_0123456789abcdef.proto='tcp'\n\
         firewall.mbed_n_0123456789abcdef.src_dport='8443'\n\
         firewall.mbed_n_0123456789abcdef.dest_ip='192.168.1.10'\n\
         firewall.mbed_n_0123456789abcdef.dest_port='443'\n\
         firewall.mbed_n_0123456789abcdef.target='DNAT'\n", &VALID)
    .expect("inventory");
    assert_eq!(snapshot.inventory().objects.len(), 2);
    assert!(matches!(
        &snapshot.inventory().objects[0],
        FirewallObject::AddressSet(set) if set.entries.len() == 2
    ));
    assert!(matches!(
        &snapshot.inventory().objects[1],
        FirewallObject::NatRule(rule)
            if rule.kind == FirewallNatKind::DestinationNat
                && rule.translation_address.is_some()
    ));
}

#[test]
fn unreadable_zone_policies_are_never_read_as_the_default() {
    let zone = |selector: &str, policy: &str| {
        format!(
            "firewall.{selector}=zone\n\
             firewall.{selector}.name='guest'\n\
             firewall.{selector}.network='guest'\n\
             firewall.{selector}.{policy}\n"
        )
    };
    for policy in ["input='BOGUS'", "output=''", "forward='ACCEPT' 'DROP'"] {
        assert_eq!(
            inspect_openwrt_firewall_inventory(&zone("mbed_z_0123456789abcdef", policy), &VALID),
            Err(FirewallRenderError::UnsupportedManagedSection("mbed_z_0123456789abcdef".into()))
        );
        let native =
            inspect_openwrt_firewall_inventory(&zone("guest", policy), &VALID).expect("native");
        assert!(native.inventory().objects.is_empty());
        assert_eq!(native.read_only_sections(), ["guest"]);
    }
    let absent = inspect_openwrt_firewall_inventory(
        &zone("mbed_z_0123456789abcdef", "input='accept'"),
        &VALID,
    )
    .expect("absent policies are the defaults");
    let FirewallObject::Zone(zone) = &absent.inventory().objects[0] else {
        panic!("zone expected");
    };
    assert_eq!(zone.input, FirewallVerdict::Accept);
    assert_eq!(zone.output, FirewallVerdict::Reject);
    assert_eq!(zone.forward, FirewallVerdict::Reject);
}
