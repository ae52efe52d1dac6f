//! Discovery of the platform.

use platform_linux::platform::{
    release_major, release_value, Discovery, FirewallBackend, InitSystem, PackageManager,
    PlatformKind, SeenPath, MINIMUM_OPENWRT_MAJOR,
};

#[test]
fn parses_quoted_openwrt_release() {
    let text = "DISTRIB_ID='OpenWrt'\nDISTRIB_RELEASE='21.02.7'\n";
    assert_eq!(
        release_value(text, "DISTRIB_RELEASE").as_deref(),
        Some("21.02.7")
    );
    assert_eq!(release_major("21.02.7"), Some(21));
}

#[test]
fn rejects_pre_21_major() {
    assert!(release_major("19.07.10").is_some_and(|major| major < MINIMUM_OPENWRT_MAJOR));
}

#[test]
fn discovers_openwrt_21_fw3_fixture() {
    let mut fixture = Fixture::new();
    fixture.write("etc/openwrt_release", "DISTRIB_RELEASE='21.02.7'\n");
    fixture.write("sbin/fw3", "");
    fixture.write("sbin/uci", "");
    fixture.write("sbin/ubus", "");
    fixture.write("usr/sbin/iptables-save", "");
    fixture.write("usr/bin/opkg", "");

    let capabilities = Discovery::new(fixture.files).discover();
    assert_eq!(capabilities.kind, PlatformKind::OpenWrt);
    assert_eq!(capabilities.release.as_deref(), Some("21.02.7"));
    assert!(capabilities.release_supported);
    assert_eq!(capabilities.firewall.backend, FirewallBackend::Fw3);
    assert_eq!(capabilities.package_manager, PackageManager::Opkg);
}

#[test]
fn mixed_install_uses_backend_referenced_by_firewall_service() {
    let mut fixture = Fixture::new();
    fixture.write("etc/openwrt_release", "DISTRIB_RELEASE='23.05.5'\n");
    fixture.write("sbin/fw3", "");
    fixture.write("sbin/fw4", "");
    fixture.write("usr/sbin/iptables-save", "");
    fixture.write("usr/sbin/nft", "");
    fixture.write("etc/init.d/firewall", "#!/bin/sh\n/usr/sbin/fw3 -q start\n");
    let capabilities = Discovery::new(fixture.files).discover();
    assert_eq!(capabilities.firewall.backend, FirewallBackend::Fw3);
}

#[test]
fn generic_linux_detects_native_nftables_and_iptables() {
    let mut nft_fixture = Fixture::new();
    nft_fixture.write("etc/os-release", "ID=buildroot\n");
    nft_fixture.write("usr/sbin/nft", "");
    let nft = Discovery::new(nft_fixture.files).discover();
    assert_eq!(nft.kind, PlatformKind::GenericLinux);
    assert_eq!(nft.firewall.backend, FirewallBackend::Nftables);

    let mut iptables_fixture = Fixture::new();
    iptables_fixture.write("etc/os-release", "ID=debian\n");
    iptables_fixture.write("usr/sbin/iptables-save", "");
    iptables_fixture.write("usr/bin/apt-get", "");
    iptables_fixture.write("usr/bin/systemctl", "");
    let iptables = Discovery::new(iptables_fixture.files).discover();
    assert_eq!(iptables.kind, PlatformKind::GenericLinux);
    assert_eq!(iptables.firewall.backend, FirewallBackend::Iptables);
    assert_eq!(iptables.package_manager, PackageManager::Apt);
    assert_eq!(iptables.init_system, InitSystem::Systemd);
}

#[test]
fn generic_linux_detects_openrc_and_busybox_init() {
    let mut openrc_fixture = Fixture::new();
    openrc_fixture.write("etc/os-release", "ID=alpine\n");
    openrc_fixture.write("sbin/openrc", "");
    openrc_fixture.write("sbin/apk", "");
    let openrc = Discovery::new(openrc_fixture.files).discover();
    assert_eq!(openrc.init_system, InitSystem::OpenRc);
    assert_eq!(openrc.package_manager, PackageManager::Apk);

    let mut busybox_fixture = Fixture::new();
    busybox_fixture.write("etc/os-release", "ID=buildroot\n");
    busybox_fixture.write("etc/inittab", "::sysinit:/etc/init.d/rcS\n");
    busybox_fixture.write("bin/busybox", "");
    let busybox = Discovery::new(busybox_fixture.files).discover();
    assert_eq!(busybox.init_system, InitSystem::BusyBox);
}


/// Files below a root, without a file system.
struct Fixture {
    files: Vec<SeenPath>,
}

impl Fixture {
    fn new() -> Self {
        Self { files: Vec::new() }
    }

    fn write(&mut self, relative: &str, content: &str) {
        self.files.push(SeenPath {
            path: format!("/{relative}"),
            is_file: true,
            text: Some(content.to_owned()),
        });
    }
}
