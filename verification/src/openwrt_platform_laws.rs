//! What discovery reports of an OpenWrt device, by what was seen on it.

use vstd::prelude::*;

use crate::openwrt_platform::{
    capabilities_of, known_commands, warnings_of, FirewallBackend, NetworkDeviceModel, PackageManager,
    PlatformCapabilitiesView, PlatformKind,
};
use crate::platform::{has_word, lemma_seen_commands, push_if, too_old, SeenPathView};
use crate::platform_laws::{
    has_program, is_first, is_readable, is_release_of, is_seen, law_paths_are_what_was_seen,
    law_programs_are_regular_files, law_releases_from_the_minimum_on_are_supported, lemma_push_if,
    lemma_readable,
};
use crate::text::is_digit;

verus! {

proof fn lemma_known(files: Seq<SeenPathView>, name: Seq<char>, k: int)
    requires
        0 <= k < known_commands().len(),
        known_commands()[k] == name,
    ensures
        capabilities_of(files).available_commands.contains(name) == has_program(files, name),
{
    lemma_seen_commands(Seq::empty(), files, known_commands(), 0, name);
    law_programs_are_regular_files(files, name);
}

/// What is reported of a tool is whether the tool is installed, and the device is modelled and its packages are
/// installed by what is there.
pub proof fn law_openwrt_tools_are_reported(files: Seq<SeenPathView>)
    ensures
        ({
            let c = capabilities_of(files);
            let filtered = is_seen(files, "/sys/class/net/br-lan/bridge/vlan_filtering"@);
            &&& c.has_ubus == has_program(files, "ubus"@)
            &&& c.has_uci == has_program(files, "uci"@)
            &&& c.firewall.has_nft == has_program(files, "nft"@)
            &&& c.firewall.has_iptables_save == has_program(files, "iptables-save"@)
            &&& c.firewall.has_ip6tables_save == has_program(files, "ip6tables-save"@)
            &&& c.has_procd == is_seen(files, "/sbin/procd"@)
            &&& c.device_model == NetworkDeviceModel::Dsa <==> filtered
            &&& c.device_model == NetworkDeviceModel::Swconfig <==> has_program(files, "swconfig"@) && !filtered
            &&& c.device_model == NetworkDeviceModel::Unknown <==> !has_program(files, "swconfig"@) && !filtered
            &&& c.package_manager == PackageManager::Apk <==> has_program(files, "apk"@)
            &&& c.package_manager == PackageManager::Opkg <==> has_program(files, "opkg"@) && !has_program(
                files,
                "apk"@,
            )
            &&& c.package_manager == PackageManager::Unknown <==> !has_program(files, "opkg"@) && !has_program(
                files,
                "apk"@,
            )
        }),
{
    lemma_known(files, "ubus"@, 0);
    lemma_known(files, "uci"@, 1);
    lemma_known(files, "iptables-save"@, 4);
    lemma_known(files, "ip6tables-save"@, 5);
    lemma_known(files, "nft"@, 6);
    lemma_known(files, "swconfig"@, 7);
    lemma_known(files, "opkg"@, 8);
    lemma_known(files, "apk"@, 9);
    law_paths_are_what_was_seen(files, "/sbin/procd"@);
    law_paths_are_what_was_seen(files, "/sys/class/net/br-lan/bridge/vlan_filtering"@);
}

/// The backend is one that is installed. With one installed it is that one; with both, the older is chosen only where
/// the service script names it and does not name the newer.
pub proof fn law_openwrt_backend_is_installed(files: Seq<SeenPathView>, i: int)
    ensures
        ({
            let c = capabilities_of(files);
            let backend = c.firewall.backend;
            let old = has_program(files, "fw3"@);
            let new = has_program(files, "fw4"@);
            &&& backend == FirewallBackend::Fw4 ==> new
            &&& backend == FirewallBackend::Fw3 ==> old
            &&& backend == FirewallBackend::Unknown <==> !old && !new
            &&& old && new && is_first(files, "/etc/init.d/firewall"@, i) ==> (backend == FirewallBackend::Fw3
                <==> files[i].text is Some && has_word(files[i].text->Some_0, "fw3"@) && !has_word(
                files[i].text->Some_0,
                "fw4"@,
            ))
            &&& old && new && !is_readable(files, "/etc/init.d/firewall"@) ==> backend == FirewallBackend::Fw4
            &&& c.firewall.can_trace <==> has_program(files, "nft"@) && backend == FirewallBackend::Fw4
        }),
{
    lemma_known(files, "fw3"@, 2);
    lemma_known(files, "fw4"@, 3);
    lemma_known(files, "nft"@, 6);
    lemma_readable(files, "/etc/init.d/firewall"@);
    law_paths_are_what_was_seen(files, "/etc/init.d/firewall"@);
}

/// The kind is by the release files, and a release of a major number is supported on OpenWrt exactly from 21 on.
pub proof fn law_openwrt_release_is_supported_from_the_minimum_on(files: Seq<SeenPathView>, major: nat)
    ensures
        ({
            let c = capabilities_of(files);
            let linux = is_readable(files, "/etc/os-release"@) || is_seen(files, "/proc/version"@);
            &&& c.kind == PlatformKind::OpenWrt <==> is_readable(files, "/etc/openwrt_release"@)
            &&& c.kind == PlatformKind::GenericLinux <==> linux && !is_readable(files, "/etc/openwrt_release"@)
            &&& c.kind == PlatformKind::Unknown <==> !linux && !is_readable(files, "/etc/openwrt_release"@)
            &&& c.release == crate::platform::capabilities_of(files).release
            &&& c.kind == PlatformKind::OpenWrt && c.release is Some && is_release_of(c.release->Some_0, major)
                && major <= u32::MAX ==> (c.release_supported <==> major >= 21)
            &&& c.kind == PlatformKind::OpenWrt && c.release is Some && (c.release->Some_0.len() == 0 || !is_digit(
                c.release->Some_0[0],
            ) && c.release->Some_0[0] != '+') ==> !c.release_supported
            &&& c.kind == PlatformKind::OpenWrt && c.release is None ==> !c.release_supported
            &&& c.kind != PlatformKind::OpenWrt ==> c.release_supported
        }),
{
    lemma_readable(files, "/etc/openwrt_release"@);
    lemma_readable(files, "/etc/os-release"@);
    law_paths_are_what_was_seen(files, "/proc/version"@);
    law_releases_from_the_minimum_on_are_supported(files, major);
}

proof fn lemma_warned(c: PlatformCapabilitiesView, has_service: bool, y: Seq<char>)
    ensures
        warnings_of(c.kind, c.release, c.release_supported, c.firewall.backend, c.available_commands, has_service).contains(
            y,
        ) <==> {
            ||| c.kind == PlatformKind::OpenWrt && !c.release_supported && y == too_old(c.release)
            ||| c.kind == PlatformKind::OpenWrt && c.firewall.backend == FirewallBackend::Unknown && y
                == "unable to identify the active fw3/fw4 firewall backend"@
            ||| c.available_commands.contains("fw3"@) && c.available_commands.contains("fw4"@) && !has_service && y
                == "both fw3 and fw4 were found without readable firewall service evidence; using fw4 fallback"@
            ||| c.firewall.backend == FirewallBackend::Fw4 && !c.available_commands.contains("nft"@) && y
                == "fw4 was found but nft is unavailable"@
            ||| c.firewall.backend == FirewallBackend::Fw3 && !c.available_commands.contains("iptables-save"@) && y
                == "fw3 was found but iptables-save is unavailable"@
        },
{
    let a = c.available_commands;
    let t1 = c.kind == PlatformKind::OpenWrt && !c.release_supported;
    let s1 = push_if(Seq::empty(), t1, too_old(c.release));
    lemma_push_if(Seq::empty(), t1, too_old(c.release), y);
    let x2 = "unable to identify the active fw3/fw4 firewall backend"@;
    let t2 = c.kind == PlatformKind::OpenWrt && c.firewall.backend == FirewallBackend::Unknown;
    let s2 = push_if(s1, t2, x2);
    lemma_push_if(s1, t2, x2, y);
    let x3 = "both fw3 and fw4 were found without readable firewall service evidence; using fw4 fallback"@;
    let t3 = a.contains("fw3"@) && a.contains("fw4"@) && !has_service;
    let s3 = push_if(s2, t3, x3);
    lemma_push_if(s2, t3, x3, y);
    let x4 = "fw4 was found but nft is unavailable"@;
    let t4 = c.firewall.backend == FirewallBackend::Fw4 && !a.contains("nft"@);
    let s4 = push_if(s3, t4, x4);
    lemma_push_if(s3, t4, x4, y);
    let x5 = "fw3 was found but iptables-save is unavailable"@;
    let t5 = c.firewall.backend == FirewallBackend::Fw3 && !a.contains("iptables-save"@);
    lemma_push_if(s4, t5, x5, y);
}

/// Each warning is given exactly where what it warns of is so.
pub proof fn law_openwrt_warnings_say_what_is_wrong(files: Seq<SeenPathView>, y: Seq<char>)
    ensures
        ({
            let c = capabilities_of(files);
            c.warnings.contains(y) <==> {
                ||| c.kind == PlatformKind::OpenWrt && !c.release_supported && y == "OpenWrt "@ + (match c.release {
                    Some(r) => r,
                    None => "unknown"@,
                }) + " is older than the minimum supported major version 21"@
                ||| c.kind == PlatformKind::OpenWrt && c.firewall.backend == FirewallBackend::Unknown && y
                    == "unable to identify the active fw3/fw4 firewall backend"@
                ||| has_program(files, "fw3"@) && has_program(files, "fw4"@) && !is_readable(
                    files,
                    "/etc/init.d/firewall"@,
                ) && y
                    == "both fw3 and fw4 were found without readable firewall service evidence; using fw4 fallback"@
                ||| c.firewall.backend == FirewallBackend::Fw4 && !has_program(files, "nft"@) && y
                    == "fw4 was found but nft is unavailable"@
                ||| c.firewall.backend == FirewallBackend::Fw3 && !has_program(files, "iptables-save"@) && y
                    == "fw3 was found but iptables-save is unavailable"@
            }
        }),
{
    lemma_known(files, "fw3"@, 2);
    lemma_known(files, "fw4"@, 3);
    lemma_known(files, "iptables-save"@, 4);
    lemma_known(files, "nft"@, 6);
    lemma_readable(files, "/etc/init.d/firewall"@);
    lemma_warned(capabilities_of(files), is_readable(files, "/etc/init.d/firewall"@), y);
}

} // verus!
