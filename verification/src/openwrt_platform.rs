//! Discovery of an OpenWrt platform.

use vstd::prelude::*;

use crate::items::{copy_list, copy_opt, same_list, same_opt, Item};
use crate::platform::{
    commands_in, exists_in, fixed_paths, has_word, is_supported, path_exists, path_text, probe_paths, push_if,
    read_in, release_of, release_value, seen_commands, supported_release, too_old, too_old_warning, word_in,
    SeenPath, SeenPathView,
};
use crate::text::holds;
use crate::views::{group_views, opt, views};

verus! {

broadcast use group_views;

/// The kind of a platform.
#[derive(Debug, Clone, Copy, PartialEq, Eq, Structural)]
pub enum PlatformKind {
    OpenWrt,
    GenericLinux,
    Unknown,
}

impl View for PlatformKind {
    type V = PlatformKind;

    open spec fn view(&self) -> PlatformKind {
        *self
    }
}

impl Item for PlatformKind {
    fn alike(&self, other: &Self) -> (r: bool) {
        *self == *other
    }

    fn twin(&self) -> (r: Self) {
        *self
    }
}

/// What runs the firewall.
#[derive(Debug, Clone, Copy, PartialEq, Eq, Structural)]
pub enum FirewallBackend {
    Fw3,
    Fw4,
    Unknown,
}

impl View for FirewallBackend {
    type V = FirewallBackend;

    open spec fn view(&self) -> FirewallBackend {
        *self
    }
}

impl Item for FirewallBackend {
    fn alike(&self, other: &Self) -> (r: bool) {
        *self == *other
    }

    fn twin(&self) -> (r: Self) {
        *self
    }
}

/// How switch ports are modelled.
#[derive(Debug, Clone, Copy, PartialEq, Eq, Structural)]
pub enum NetworkDeviceModel {
    Dsa,
    Swconfig,
    Unknown,
}

impl View for NetworkDeviceModel {
    type V = NetworkDeviceModel;

    open spec fn view(&self) -> NetworkDeviceModel {
        *self
    }
}

impl Item for NetworkDeviceModel {
    fn alike(&self, other: &Self) -> (r: bool) {
        *self == *other
    }

    fn twin(&self) -> (r: Self) {
        *self
    }
}

/// What installs packages.
#[derive(Debug, Clone, Copy, PartialEq, Eq, Structural)]
pub enum PackageManager {
    Opkg,
    Apk,
    Unknown,
}

impl View for PackageManager {
    type V = PackageManager;

    open spec fn view(&self) -> PackageManager {
        *self
    }
}

impl Item for PackageManager {
    fn alike(&self, other: &Self) -> (r: bool) {
        *self == *other
    }

    fn twin(&self) -> (r: Self) {
        *self
    }
}

/// What the firewall tools can do.
#[derive(Debug, Clone, Copy, PartialEq, Eq, Structural)]
pub struct FirewallCapabilities {
    pub backend: FirewallBackend,
    pub has_iptables_save: bool,
    pub has_ip6tables_save: bool,
    pub has_nft: bool,
    pub can_trace: bool,
}

impl View for FirewallCapabilities {
    type V = FirewallCapabilities;

    open spec fn view(&self) -> FirewallCapabilities {
        *self
    }
}

impl Item for FirewallCapabilities {
    fn alike(&self, other: &Self) -> (r: bool) {
        *self == *other
    }

    fn twin(&self) -> (r: Self) {
        *self
    }
}

/// What was discovered of a platform.
#[derive(Debug, Clone, PartialEq, Eq)]
pub struct PlatformCapabilities {
    pub kind: PlatformKind,
    pub release: Option<String>,
    pub release_supported: bool,
    pub firewall: FirewallCapabilities,
    pub device_model: NetworkDeviceModel,
    pub package_manager: PackageManager,
    pub has_ubus: bool,
    pub has_uci: bool,
    pub has_procd: bool,
    pub available_commands: Vec<String>,
    pub warnings: Vec<String>,
}

#[verifier::ext_equal]
pub struct PlatformCapabilitiesView {
    pub kind: PlatformKind,
    pub release: Option<Seq<char>>,
    pub release_supported: bool,
    pub firewall: FirewallCapabilities,
    pub device_model: NetworkDeviceModel,
    pub package_manager: PackageManager,
    pub has_ubus: bool,
    pub has_uci: bool,
    pub has_procd: bool,
    pub available_commands: Seq<Seq<char>>,
    pub warnings: Seq<Seq<char>>,
}

impl View for PlatformCapabilities {
    type V = PlatformCapabilitiesView;

    open spec fn view(&self) -> PlatformCapabilitiesView {
        PlatformCapabilitiesView {
            kind: self.kind,
            release: opt(self.release),
            release_supported: self.release_supported,
            firewall: self.firewall,
            device_model: self.device_model,
            package_manager: self.package_manager,
            has_ubus: self.has_ubus,
            has_uci: self.has_uci,
            has_procd: self.has_procd,
            available_commands: views(self.available_commands@),
            warnings: views(self.warnings@),
        }
    }
}

impl Item for PlatformCapabilities {
    fn alike(&self, other: &Self) -> (r: bool) {
        self.kind == other.kind
            && same_opt(&self.release, &other.release)
            && self.release_supported == other.release_supported
            && self.firewall == other.firewall
            && self.device_model == other.device_model
            && self.package_manager == other.package_manager
            && self.has_ubus == other.has_ubus
            && self.has_uci == other.has_uci
            && self.has_procd == other.has_procd
            && same_list(&self.available_commands, &other.available_commands)
            && same_list(&self.warnings, &other.warnings)
    }

    fn twin(&self) -> (r: Self) {
        PlatformCapabilities {
            kind: self.kind,
            release: copy_opt(&self.release),
            release_supported: self.release_supported,
            firewall: self.firewall,
            device_model: self.device_model,
            package_manager: self.package_manager,
            has_ubus: self.has_ubus,
            has_uci: self.has_uci,
            has_procd: self.has_procd,
            available_commands: copy_list(&self.available_commands),
            warnings: copy_list(&self.warnings),
        }
    }
}

/// Discovery of a platform from the paths that were seen.
#[derive(Debug, Clone)]
pub struct Discovery {
    pub files: Vec<SeenPath>,
}

impl PlatformKind {
    pub open spec fn name(self) -> Seq<char> {
        match self {
            PlatformKind::OpenWrt => "openwrt"@,
            PlatformKind::GenericLinux => "generic_linux"@,
            PlatformKind::Unknown => "unknown"@,
        }
    }

    pub fn as_str(self) -> (r: &'static str)
        ensures
            r@ == self.name(),
    {
        match self {
            PlatformKind::OpenWrt => "openwrt",
            PlatformKind::GenericLinux => "generic_linux",
            PlatformKind::Unknown => "unknown",
        }
    }
}

pub open spec fn known_commands() -> Seq<Seq<char>> {
    seq![
        "ubus"@,
        "uci"@,
        "fw3"@,
        "fw4"@,
        "iptables-save"@,
        "ip6tables-save"@,
        "nft"@,
        "swconfig"@,
        "opkg"@,
        "apk"@,
        "iwinfo"@,
        "ip"@,
    ]
}

pub open spec fn kind_of(files: Seq<SeenPathView>) -> PlatformKind {
    if path_text(files, "/etc/openwrt_release"@) is Some {
        PlatformKind::OpenWrt
    } else if path_text(files, "/etc/os-release"@) is Some || path_exists(files, "/proc/version"@) {
        PlatformKind::GenericLinux
    } else {
        PlatformKind::Unknown
    }
}

/// The backend that the service script names, among those installed; else the newer of them.
pub open spec fn backend_of(has_fw3: bool, has_fw4: bool, script: Option<Seq<char>>) -> FirewallBackend {
    if has_fw4 && script is Some && has_word(script->Some_0, "fw4"@) {
        FirewallBackend::Fw4
    } else if has_fw3 && script is Some && has_word(script->Some_0, "fw3"@) {
        FirewallBackend::Fw3
    } else if has_fw4 {
        FirewallBackend::Fw4
    } else if has_fw3 {
        FirewallBackend::Fw3
    } else {
        FirewallBackend::Unknown
    }
}

pub open spec fn warnings_of(
    kind: PlatformKind,
    release: Option<Seq<char>>,
    supported: bool,
    backend: FirewallBackend,
    available: Seq<Seq<char>>,
    has_service: bool,
) -> Seq<Seq<char>> {
    let old = push_if(
        Seq::empty(),
        kind == PlatformKind::OpenWrt && !supported,
        too_old(release),
    );
    let unknown = push_if(
        old,
        kind == PlatformKind::OpenWrt && backend == FirewallBackend::Unknown,
        "unable to identify the active fw3/fw4 firewall backend"@,
    );
    let both = push_if(
        unknown,
        available.contains("fw3"@) && available.contains("fw4"@) && !has_service,
        "both fw3 and fw4 were found without readable firewall service evidence; using fw4 fallback"@,
    );
    let nft = push_if(
        both,
        backend == FirewallBackend::Fw4 && !available.contains("nft"@),
        "fw4 was found but nft is unavailable"@,
    );
    push_if(
        nft,
        backend == FirewallBackend::Fw3 && !available.contains("iptables-save"@),
        "fw3 was found but iptables-save is unavailable"@,
    )
}

/// What the seen paths say of the platform.
pub open spec fn capabilities_of(files: Seq<SeenPathView>) -> PlatformCapabilitiesView {
    let available = seen_commands(Seq::empty(), files, known_commands(), 0);
    let kind = kind_of(files);
    let release = release_of(files);
    let supported = kind != PlatformKind::OpenWrt || is_supported(release);
    let service = path_text(files, "/etc/init.d/firewall"@);
    let backend = backend_of(available.contains("fw3"@), available.contains("fw4"@), service);
    PlatformCapabilitiesView {
        kind,
        release,
        release_supported: supported,
        firewall: FirewallCapabilities {
            backend,
            has_iptables_save: available.contains("iptables-save"@),
            has_ip6tables_save: available.contains("ip6tables-save"@),
            has_nft: available.contains("nft"@),
            can_trace: available.contains("nft"@) && backend == FirewallBackend::Fw4,
        },
        device_model: if path_exists(files, "/sys/class/net/br-lan/bridge/vlan_filtering"@) {
            NetworkDeviceModel::Dsa
        } else if available.contains("swconfig"@) {
            NetworkDeviceModel::Swconfig
        } else {
            NetworkDeviceModel::Unknown
        },
        package_manager: if available.contains("apk"@) {
            PackageManager::Apk
        } else if available.contains("opkg"@) {
            PackageManager::Opkg
        } else {
            PackageManager::Unknown
        },
        has_ubus: available.contains("ubus"@),
        has_uci: available.contains("uci"@),
        has_procd: path_exists(files, "/sbin/procd"@),
        available_commands: available,
        warnings: warnings_of(kind, release, supported, backend, available, service is Some),
    }
}

impl PlatformCapabilities {
    /// What the seen paths say of the platform.
    pub fn discover(files: Vec<SeenPath>) -> (r: Self)
        ensures
            r@ == capabilities_of(views(files@)),
    {
        Discovery::new(files).discover()
    }
}

impl Discovery {
    /// Discovery over the paths that were seen below a root.
    pub fn new(files: Vec<SeenPath>) -> (r: Self)
        ensures
            r.files@ == files@,
    {
        Discovery { files }
    }

    /// The paths below the root that must be looked at.
    pub fn paths() -> (r: Vec<String>)
        ensures
            forall|i: int|
                0 <= i < known_commands().len() ==> views(r@).contains(
                    "/usr/sbin/"@ + #[trigger] known_commands()[i],
                ) && views(r@).contains("/usr/bin/"@ + known_commands()[i]) && views(r@).contains(
                    "/sbin/"@ + known_commands()[i],
                ) && views(r@).contains("/bin/"@ + known_commands()[i]),
            forall|i: int|
                0 <= i < fixed_paths().len() ==> views(r@).contains(#[trigger] fixed_paths()[i]),
    {
        let commands = [
            "ubus",
            "uci",
            "fw3",
            "fw4",
            "iptables-save",
            "ip6tables-save",
            "nft",
            "swconfig",
            "opkg",
            "apk",
            "iwinfo",
            "ip",
        ];
        assert(views(commands@) =~= known_commands());
        let r = probe_paths(&commands);
        assert forall|i: int| 0 <= i < known_commands().len() implies views(r@).contains(
            "/usr/sbin/"@ + #[trigger] known_commands()[i],
        ) && views(r@).contains("/usr/bin/"@ + known_commands()[i]) && views(r@).contains(
            "/sbin/"@ + known_commands()[i],
        ) && views(r@).contains("/bin/"@ + known_commands()[i]) by {
            assert(known_commands()[i] == views(commands@)[i]);
            assert(views(commands@)[i] == commands@[i]@);
        }
        r
    }

    /// What the seen paths say of the platform.
    pub fn discover(&self) -> (r: PlatformCapabilities)
        ensures
            r@ == capabilities_of(views(self.files@)),
    {
        let release_text = read_in(&self.files, "/etc/openwrt_release");
        let os_release = read_in(&self.files, "/etc/os-release");
        let kind = if release_text.is_some() {
            PlatformKind::OpenWrt
        } else if os_release.is_some() || exists_in(&self.files, "/proc/version") {
            PlatformKind::GenericLinux
        } else {
            PlatformKind::Unknown
        };
        let release = match &release_text {
            Some(text) => release_value(text.as_str(), "DISTRIB_RELEASE"),
            None => None,
        };
        let release_supported = kind != PlatformKind::OpenWrt || supported_release(&release);
        let commands = [
            "ubus",
            "uci",
            "fw3",
            "fw4",
            "iptables-save",
            "ip6tables-save",
            "nft",
            "swconfig",
            "opkg",
            "apk",
            "iwinfo",
            "ip",
        ];
        assert(views(commands@) =~= known_commands());
        let available_commands = commands_in(&self.files, &commands);
        let has_fw3 = holds(&available_commands, "fw3");
        let has_fw4 = holds(&available_commands, "fw4");
        let has_nft = holds(&available_commands, "nft");
        let has_iptables_save = holds(&available_commands, "iptables-save");
        let firewall_service = read_in(&self.files, "/etc/init.d/firewall");
        let backend = select_firewall_backend(has_fw3, has_fw4, &firewall_service);
        let device_model = if exists_in(
            &self.files,
            "/sys/class/net/br-lan/bridge/vlan_filtering",
        ) {
            NetworkDeviceModel::Dsa
        } else if holds(&available_commands, "swconfig") {
            NetworkDeviceModel::Swconfig
        } else {
            NetworkDeviceModel::Unknown
        };
        let package_manager = if holds(&available_commands, "apk") {
            PackageManager::Apk
        } else if holds(&available_commands, "opkg") {
            PackageManager::Opkg
        } else {
            PackageManager::Unknown
        };
        let mut warnings: Vec<String> = Vec::new();
        if kind == PlatformKind::OpenWrt && !release_supported {
            warnings.push(too_old_warning(&release));
        }
        if kind == PlatformKind::OpenWrt && backend == FirewallBackend::Unknown {
            warnings.push("unable to identify the active fw3/fw4 firewall backend".to_owned());
        }
        if has_fw3 && has_fw4 && firewall_service.is_none() {
            warnings.push(
                "both fw3 and fw4 were found without readable firewall service evidence; using fw4 fallback".to_owned(),
            );
        }
        if backend == FirewallBackend::Fw4 && !has_nft {
            warnings.push("fw4 was found but nft is unavailable".to_owned());
        }
        if backend == FirewallBackend::Fw3 && !has_iptables_save {
            warnings.push("fw3 was found but iptables-save is unavailable".to_owned());
        }
        let has_ip6tables_save = holds(&available_commands, "ip6tables-save");
        let has_ubus = holds(&available_commands, "ubus");
        let has_uci = holds(&available_commands, "uci");
        let has_procd = exists_in(&self.files, "/sbin/procd");
        PlatformCapabilities {
            kind,
            release,
            release_supported,
            firewall: FirewallCapabilities {
                backend,
                has_iptables_save,
                has_ip6tables_save,
                has_nft,
                can_trace: has_nft && backend == FirewallBackend::Fw4,
            },
            device_model,
            package_manager,
            has_ubus,
            has_uci,
            has_procd,
            available_commands,
            warnings,
        }
    }
}

/// Selects between the installed backends by what the service script names.
pub fn select_firewall_backend(
    has_fw3: bool,
    has_fw4: bool,
    service_script: &Option<String>,
) -> (r: FirewallBackend)
    ensures
        r == backend_of(has_fw3, has_fw4, opt(*service_script)),
{
    match service_script {
        Some(script) => {
            if has_fw4 && word_in(script.as_str(), "fw4") {
                return FirewallBackend::Fw4;
            }
            if has_fw3 && word_in(script.as_str(), "fw3") {
                return FirewallBackend::Fw3;
            }
        },
        None => {},
    }
    if has_fw4 {
        FirewallBackend::Fw4
    } else if has_fw3 {
        FirewallBackend::Fw3
    } else {
        FirewallBackend::Unknown
    }
}

} // verus!
