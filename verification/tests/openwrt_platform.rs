//! Discovery of an OpenWrt platform.

use platform_linux::openwrt_platform::{Discovery, FirewallBackend, PackageManager, PlatformKind};
use platform_linux::platform::{release_major, release_value, SeenPath, MINIMUM_OPENWRT_MAJOR};

#[test]
fn lib_parses_quoted_openwrt_release() {
    let text = "DISTRIB_ID='OpenWrt'\nDISTRIB_RELEASE='21.02.7'\n";
    assert_eq!(
        release_value(text, "DISTRIB_RELEASE").as_deref(),
        Some("21.02.7")
    );
    assert_eq!(release_major("21.02.7"), Some(21));
}

#[test]
fn lib_rejects_pre_21_major() {
    assert!(release_major("19.07.10").is_some_and(|major| major < MINIMUM_OPENWRT_MAJOR));
}

#[test]
fn lib_discovers_openwrt_21_fw3_fixture() {
    let mut fixture = Fixture::new();
    fixture.write("etc/openwrt_release", "DISTRIB_RELEASE='21.02.7'\n");
    fixture.write("sbin/fw3", "");
    fixture.write("sbin/uci", "");
    fixture.write("sbin/ubus", "");
    fixture.write("usr/sbin/iptables-save", "");
    fixture.write("usr/bin/opkg", "");

    let capabilities = Discovery::new(fixture.files).discover();
    assert_eq!(capabilities.kind, PlatformKind::OpenWrt);
    assert_eq!(capabilities.release.as_deref(), Some("21.02.7"));
    assert!(capabilities.release_supported);
    assert_eq!(capabilities.firewall.backend, FirewallBackend::Fw3);
    assert_eq!(capabilities.package_manager, PackageManager::Opkg);
}

#[test]
fn lib_mixed_install_uses_backend_referenced_by_firewall_service() {
    let mut fixture = Fixture::new();
    fixture.write("etc/openwrt_release", "DISTRIB_RELEASE='23.05.5'\n");
    fixture.write("sbin/fw3", "");
    fixture.write("sbin/fw4", "");
    fixture.write("usr/sbin/iptables-save", "");
    fixture.write("usr/sbin/nft", "");
    fixture.write("etc/init.d/firewall", "#!/bin/sh\n/usr/sbin/fw3 -q start\n");
    let capabilities = Discovery::new(fixture.files).discover();
    assert_eq!(capabilities.firewall.backend, FirewallBackend::Fw3);
}


/// Files below a root, without a file system.
struct Fixture {
    files: Vec<SeenPath>,
}

impl Fixture {
    fn new() -> Self {
        Self { files: Vec::new() }
    }

    fn write(&mut self, relative: &str, content: &str) {
        self.files.push(SeenPath {
            path: format!("/{relative}"),
            is_file: true,
            text: Some(content.to_owned()),
        });
    }
}
