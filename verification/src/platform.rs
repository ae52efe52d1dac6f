//! Discovery of a Linux platform and what it can do.

use vstd::prelude::*;

use vstd::string::*;

use crate::items::{copy_list, copy_opt, same_list, same_opt, Item};
use crate::text::{
    chars_are, chars_of, cut, decimal_value, find, find_from, holds, is_alnum, lines, parse_decimal, piece,
    same, split_lines, split_once, string_of, trim, trimmed,
};
use crate::views::{group_views, opt, views};

verus! {

broadcast use group_views;

/// The kind of a platform.
#[derive(Debug, Clone, Copy, PartialEq, Eq, Structural)]
pub enum PlatformKind {
    OpenWrt,
    GenericLinux,
    Unknown,
}

impl View for PlatformKind {
    type V = PlatformKind;

    open spec fn view(&self) -> PlatformKind {
        *self
    }
}

impl Item for PlatformKind {
    fn alike(&self, other: &Self) -> (r: bool) {
        *self == *other
    }

    fn twin(&self) -> (r: Self) {
        *self
    }
}

/// What runs the firewall.
#[derive(Debug, Clone, Copy, PartialEq, Eq, Structural)]
pub enum FirewallBackend {
    Fw3,
    Fw4,
    Iptables,
    Nftables,
    Unknown,
}

impl View for FirewallBackend {
    type V = FirewallBackend;

    open spec fn view(&self) -> FirewallBackend {
        *self
    }
}

impl Item for FirewallBackend {
    fn alike(&self, other: &Self) -> (r: bool) {
        *self == *other
    }

    fn twin(&self) -> (r: Self) {
        *self
    }
}

/// How switch ports are modelled.
#[derive(Debug, Clone, Copy, PartialEq, Eq, Structural)]
pub enum NetworkDeviceModel {
    Dsa,
    Swconfig,
    Unknown,
}

impl View for NetworkDeviceModel {
    type V = NetworkDeviceModel;

    open spec fn view(&self) -> NetworkDeviceModel {
        *self
    }
}

impl Item for NetworkDeviceModel {
    fn alike(&self, other: &Self) -> (r: bool) {
        *self == *other
    }

    fn twin(&self) -> (r: Self) {
        *self
    }
}

/// What installs packages.
#[derive(Debug, Clone, Copy, PartialEq, Eq, Structural)]
pub enum PackageManager {
    Opkg,
    Apk,
    Apt,
    Dnf,
    Pacman,
    Unknown,
}

impl View for PackageManager {
    type V = PackageManager;

    open spec fn view(&self) -> PackageManager {
        *self
    }
}

impl Item for PackageManager {
    fn alike(&self, other: &Self) -> (r: bool) {
        *self == *other
    }

    fn twin(&self) -> (r: Self) {
        *self
    }
}

/// What starts services.
#[derive(Debug, Clone, Copy, PartialEq, Eq, Structural)]
pub enum InitSystem {
    Procd,
    Systemd,
    OpenRc,
    BusyBox,
    Unknown,
}

impl View for InitSystem {
    type V = InitSystem;

    open spec fn view(&self) -> InitSystem {
        *self
    }
}

impl Item for InitSystem {
    fn alike(&self, other: &Self) -> (r: bool) {
        *self == *other
    }

    fn twin(&self) -> (r: Self) {
        *self
    }
}

/// What the firewall tools can do.
#[derive(Debug, Clone, Copy, PartialEq, Eq, Structural)]
pub struct FirewallCapabilities {
    pub backend: FirewallBackend,
    pub has_iptables_save: bool,
    pub has_ip6tables_save: bool,
    pub has_nft: bool,
    pub can_trace: bool,
}

impl View for FirewallCapabilities {
    type V = FirewallCapabilities;

    open spec fn view(&self) -> FirewallCapabilities {
        *self
    }
}

impl Item for FirewallCapabilities {
    fn alike(&self, other: &Self) -> (r: bool) {
        *self == *other
    }

    fn twin(&self) -> (r: Self) {
        *self
    }
}

/// What was discovered of a platform.
#[derive(Debug, Clone, PartialEq, Eq)]
pub struct PlatformCapabilities {
    pub kind: PlatformKind,
    pub release: Option<String>,
    pub release_supported: bool,
    pub firewall: FirewallCapabilities,
    pub device_model: NetworkDeviceModel,
    pub package_manager: PackageManager,
    pub init_system: InitSystem,
    pub has_ubus: bool,
    pub has_uci: bool,
    pub has_procd: bool,
    pub available_commands: Vec<String>,
    pub warnings: Vec<String>,
}

#[verifier::ext_equal]
pub struct PlatformCapabilitiesView {
    pub kind: PlatformKind,
    pub release: Option<Seq<char>>,
    pub release_supported: bool,
    pub firewall: FirewallCapabilities,
    pub device_model: NetworkDeviceModel,
    pub package_manager: PackageManager,
    pub init_system: InitSystem,
    pub has_ubus: bool,
    pub has_uci: bool,
    pub has_procd: bool,
    pub available_commands: Seq<Seq<char>>,
    pub warnings: Seq<Seq<char>>,
}

impl View for PlatformCapabilities {
    type V = PlatformCapabilitiesView;

    open spec fn view(&self) -> PlatformCapabilitiesView {
        PlatformCapabilitiesView {
            kind: self.kind,
            release: opt(self.release),
            release_supported: self.release_supported,
            firewall: self.firewall,
            device_model: self.device_model,
            package_manager: self.package_manager,
            init_system: self.init_system,
            has_ubus: self.has_ubus,
            has_uci: self.has_uci,
            has_procd: self.has_procd,
            available_commands: views(self.available_commands@),
            warnings: views(self.warnings@),
        }
    }
}

impl Item for PlatformCapabilities {
    fn alike(&self, other: &Self) -> (r: bool) {
        self.kind == other.kind
            && same_opt(&self.release, &other.release)
            && self.release_supported == other.release_supported
            && self.firewall == other.firewall
            && self.device_model == other.device_model
            && self.package_manager == other.package_manager
            && self.init_system == other.init_system
            && self.has_ubus == other.has_ubus
            && self.has_uci == other.has_uci
            && self.has_procd == other.has_procd
            && same_list(&self.available_commands, &other.available_commands)
            && same_list(&self.warnings, &other.warnings)
    }

    fn twin(&self) -> (r: Self) {
        PlatformCapabilities {
            kind: self.kind,
            release: copy_opt(&self.release),
            release_supported: self.release_supported,
            firewall: self.firewall,
            device_model: self.device_model,
            package_manager: self.package_manager,
            init_system: self.init_system,
            has_ubus: self.has_ubus,
            has_uci: self.has_uci,
            has_procd: self.has_procd,
            available_commands: copy_list(&self.available_commands),
            warnings: copy_list(&self.warnings),
        }
    }
}

/// What the warnings depend on.
#[derive(Debug, Clone, PartialEq, Eq)]
pub struct WarningContext {
    pub kind: PlatformKind,
    pub release: Option<String>,
    pub release_supported: bool,
    pub backend: FirewallBackend,
    pub has_fw3: bool,
    pub has_fw4: bool,
    pub has_nft: bool,
    pub has_iptables_save: bool,
    pub has_firewall_service: bool,
}

#[verifier::ext_equal]
pub struct WarningContextView {
    pub kind: PlatformKind,
    pub release: Option<Seq<char>>,
    pub release_supported: bool,
    pub backend: FirewallBackend,
    pub has_fw3: bool,
    pub has_fw4: bool,
    pub has_nft: bool,
    pub has_iptables_save: bool,
    pub has_firewall_service: bool,
}

impl View for WarningContext {
    type V = WarningContextView;

    open spec fn view(&self) -> WarningContextView {
        WarningContextView {
            kind: self.kind,
            release: opt(self.release),
            release_supported: self.release_supported,
            backend: self.backend,
            has_fw3: self.has_fw3,
            has_fw4: self.has_fw4,
            has_nft: self.has_nft,
            has_iptables_save: self.has_iptables_save,
            has_firewall_service: self.has_firewall_service,
        }
    }
}

impl Item for WarningContext {
    fn alike(&self, other: &Self) -> (r: bool) {
        self.kind == other.kind
            && same_opt(&self.release, &other.release)
            && self.release_supported == other.release_supported
            && self.backend == other.backend
            && self.has_fw3 == other.has_fw3
            && self.has_fw4 == other.has_fw4
            && self.has_nft == other.has_nft
            && self.has_iptables_save == other.has_iptables_save
            && self.has_firewall_service == other.has_firewall_service
    }

    fn twin(&self) -> (r: Self) {
        WarningContext {
            kind: self.kind,
            release: copy_opt(&self.release),
            release_supported: self.release_supported,
            backend: self.backend,
            has_fw3: self.has_fw3,
            has_fw4: self.has_fw4,
            has_nft: self.has_nft,
            has_iptables_save: self.has_iptables_save,
            has_firewall_service: self.has_firewall_service,
        }
    }
}

/// One path that exists below the root, whether it is a regular file, and its text where that could
/// be read.
#[derive(Debug, Clone, PartialEq, Eq)]
pub struct SeenPath {
    pub path: String,
    pub is_file: bool,
    pub text: Option<String>,
}

#[verifier::ext_equal]
pub struct SeenPathView {
    pub path: Seq<char>,
    pub is_file: bool,
    pub text: Option<Seq<char>>,
}

impl View for SeenPath {
    type V = SeenPathView;

    open spec fn view(&self) -> SeenPathView {
        SeenPathView {
            path: self.path@,
            is_file: self.is_file,
            text: opt(self.text),
        }
    }
}

impl Item for SeenPath {
    fn alike(&self, other: &Self) -> (r: bool) {
        same(self.path.as_str(), other.path.as_str())
            && self.is_file == other.is_file
            && same_opt(&self.text, &other.text)
    }

    fn twin(&self) -> (r: Self) {
        SeenPath {
            path: self.path.clone(),
            is_file: self.is_file,
            text: copy_opt(&self.text),
        }
    }
}

/// Discovery of a platform from the paths that were seen.
#[derive(Debug, Clone)]
pub struct Discovery {
    pub files: Vec<SeenPath>,
}

pub const MINIMUM_OPENWRT_MAJOR: u32 = 21;

/// Whether a character is alphabetic or numeric in Unicode.
pub uninterp spec fn alphanumeric(c: char) -> bool;

/// `char::is_alphanumeric` tells whether a character is alphabetic or numeric. Of ASCII characters
/// these are the letters and the digits; of the others the result is only named.
pub assume_specification [char::is_alphanumeric] (c: char) -> (r: bool)
    ensures
        r == alphanumeric(c),
        (c as u32) < 0x80 ==> r == is_alnum(c),
;

impl PlatformKind {
    pub open spec fn name(self) -> Seq<char> {
        match self {
            PlatformKind::OpenWrt => "openwrt"@,
            PlatformKind::GenericLinux => "generic_linux"@,
            PlatformKind::Unknown => "unknown"@,
        }
    }

    pub fn as_str(self) -> (r: &'static str)
        ensures
            r@ == self.name(),
    {
        match self {
            PlatformKind::OpenWrt => "openwrt",
            PlatformKind::GenericLinux => "generic_linux",
            PlatformKind::Unknown => "unknown",
        }
    }
}

/// The first entry of a path from `i` on.
pub open spec fn entry_from(files: Seq<SeenPathView>, path: Seq<char>, i: int) -> Option<
    SeenPathView,
>
    decreases files.len() - i,
{
    if i < 0 || i >= files.len() {
        None
    } else if files[i].path == path {
        Some(files[i])
    } else {
        entry_from(files, path, i + 1)
    }
}

/// Whether a path was seen.
pub open spec fn path_exists(files: Seq<SeenPathView>, path: Seq<char>) -> bool {
    entry_from(files, path, 0) is Some
}

/// The text of a path that could be read.
pub open spec fn path_text(files: Seq<SeenPathView>, path: Seq<char>) -> Option<Seq<char>> {
    match entry_from(files, path, 0) {
        Some(e) => e.text,
        None => None,
    }
}

pub open spec fn path_is_file(files: Seq<SeenPathView>, path: Seq<char>) -> bool {
    match entry_from(files, path, 0) {
        Some(e) => e.is_file,
        None => false,
    }
}

/// Whether one of the program directories holds a regular file of the name.
pub open spec fn command_seen(files: Seq<SeenPathView>, command: Seq<char>) -> bool {
    path_is_file(files, "/usr/sbin/"@ + command) || path_is_file(files, "/usr/bin/"@ + command)
        || path_is_file(files, "/sbin/"@ + command) || path_is_file(files, "/bin/"@ + command)
}

pub open spec fn known_commands() -> Seq<Seq<char>> {
    seq![
        "ubus"@,
        "uci"@,
        "fw3"@,
        "fw4"@,
        "iptables-save"@,
        "ip6tables-save"@,
        "nft"@,
        "swconfig"@,
        "opkg"@,
        "apk"@,
        "apt-get"@,
        "dnf"@,
        "pacman"@,
        "systemctl"@,
        "openrc"@,
        "iwinfo"@,
        "ip"@,
        "ss"@,
        "netstat"@,
    ]
}

/// The commands from `i` on that were seen, behind `acc`, in the order of the list.
pub open spec fn seen_commands(
    acc: Seq<Seq<char>>,
    files: Seq<SeenPathView>,
    commands: Seq<Seq<char>>,
    i: int,
) -> Seq<Seq<char>>
    decreases commands.len() - i,
{
    if i < 0 || i >= commands.len() {
        acc
    } else if command_seen(files, commands[i]) {
        seen_commands(acc.push(commands[i]), files, commands, i + 1)
    } else {
        seen_commands(acc, files, commands, i + 1)
    }
}

/// Whether a text holds a word: no letter or digit stands directly before or behind it.
pub open spec fn has_word(s: Seq<char>, word: Seq<char>) -> bool {
    exists|i: int| #[trigger] word_at(s, word, i)
}

pub open spec fn word_at(s: Seq<char>, word: Seq<char>, i: int) -> bool {
    0 <= i && i + word.len() <= s.len() && s.subrange(i, i + word.len()) == word && (i == 0
        || !alphanumeric(s[i - 1])) && (i + word.len() == s.len() || !alphanumeric(
        s[i + word.len() as int],
    ))
}

pub open spec fn is_quote(c: char) -> bool {
    c == '\'' || c == '"'
}

pub open spec fn quotes_end(s: Seq<char>, i: int) -> int
    decreases s.len() - i,
{
    if 0 <= i < s.len() && is_quote(s[i]) {
        quotes_end(s, i + 1)
    } else {
        i
    }
}

pub open spec fn quotes_start(s: Seq<char>, from: int, j: int) -> int
    decreases j,
{
    if 0 <= from < j <= s.len() && is_quote(s[j - 1]) {
        quotes_start(s, from, j - 1)
    } else {
        j
    }
}

/// A text without the quotes around it.
pub open spec fn unquote(s: Seq<char>) -> Seq<char> {
    let a = quotes_end(s, 0);
    s.subrange(a, quotes_start(s, a, s.len() as int))
}

/// The value that a line assigns to a key.
pub open spec fn assigned(line: Seq<char>, key: Seq<char>) -> Option<Seq<char>> {
    match split_once(line, '=') {
        Some((k, v)) => if trim(k) == key {
            Some(unquote(trim(v)))
        } else {
            None
        },
        None => None,
    }
}

/// The value of the first line from `i` on that assigns one to the key.
pub open spec fn assigned_from(all: Seq<Seq<char>>, key: Seq<char>, i: int) -> Option<Seq<char>>
    decreases all.len() - i,
{
    if i < 0 || i >= all.len() {
        None
    } else {
        match assigned(all[i], key) {
            Some(v) => Some(v),
            None => assigned_from(all, key, i + 1),
        }
    }
}

/// The number before the first full stop.
pub open spec fn major_of(release: Seq<char>) -> Option<nat> {
    decimal_value(release.take(find_from(release, '.', 0)), u32::MAX as nat)
}

pub open spec fn is_supported(release: Option<Seq<char>>) -> bool {
    match release {
        Some(r) => match major_of(r) {
            Some(m) => m >= MINIMUM_OPENWRT_MAJOR,
            None => false,
        },
        None => false,
    }
}

/// The backend that the service script names, among those installed; else the newer of them.
pub open spec fn openwrt_backend(has_fw3: bool, has_fw4: bool, script: Option<Seq<char>>) -> FirewallBackend {
    if has_fw4 && script is Some && has_word(script->Some_0, "fw4"@) {
        FirewallBackend::Fw4
    } else if has_fw3 && script is Some && has_word(script->Some_0, "fw3"@) {
        FirewallBackend::Fw3
    } else if has_fw4 {
        FirewallBackend::Fw4
    } else if has_fw3 {
        FirewallBackend::Fw3
    } else {
        FirewallBackend::Unknown
    }
}

pub open spec fn push_if(s: Seq<Seq<char>>, test: bool, x: Seq<char>) -> Seq<Seq<char>> {
    if test {
        s.push(x)
    } else {
        s
    }
}

pub open spec fn too_old(release: Option<Seq<char>>) -> Seq<char> {
    "OpenWrt "@ + (match release {
        Some(r) => r,
        None => "unknown"@,
    }) + " is older than the minimum supported major version 21"@
}

impl WarningContextView {
    /// The warnings that the capabilities call for.
    pub open spec fn warnings(self) -> Seq<Seq<char>> {
        let old = push_if(
            Seq::empty(),
            self.kind == PlatformKind::OpenWrt && !self.release_supported,
            too_old(self.release),
        );
        let unknown = push_if(
            old,
            self.backend == FirewallBackend::Unknown,
            if self.kind == PlatformKind::OpenWrt {
                "unable to identify the active fw3/fw4 firewall backend"@
            } else {
                "unable to identify an nftables/iptables firewall backend"@
            },
        );
        let both = push_if(
            unknown,
            self.has_fw3 && self.has_fw4 && !self.has_firewall_service,
            "both fw3 and fw4 were found without readable firewall service evidence; using fw4 fallback"@,
        );
        let nft = push_if(
            both,
            self.backend == FirewallBackend::Fw4 && !self.has_nft,
            "fw4 was found but nft is unavailable"@,
        );
        push_if(
            nft,
            (self.backend == FirewallBackend::Fw3 || self.backend == FirewallBackend::Iptables)
                && !self.has_iptables_save,
            "iptables backend was found but iptables-save is unavailable"@,
        )
    }
}

pub open spec fn package_manager_of(files: Seq<SeenPathView>) -> PackageManager {
    if command_seen(files, "apk"@) {
        PackageManager::Apk
    } else if command_seen(files, "opkg"@) {
        PackageManager::Opkg
    } else if command_seen(files, "apt-get"@) {
        PackageManager::Apt
    } else if command_seen(files, "dnf"@) {
        PackageManager::Dnf
    } else if command_seen(files, "pacman"@) {
        PackageManager::Pacman
    } else {
        PackageManager::Unknown
    }
}

pub open spec fn init_system_of(files: Seq<SeenPathView>) -> InitSystem {
    if path_exists(files, "/sbin/procd"@) {
        InitSystem::Procd
    } else if path_exists(files, "/run/systemd/system"@) || command_seen(files, "systemctl"@) {
        InitSystem::Systemd
    } else if path_exists(files, "/run/openrc"@) || command_seen(files, "openrc"@) {
        InitSystem::OpenRc
    } else if path_exists(files, "/etc/inittab"@) && path_exists(files, "/bin/busybox"@) {
        InitSystem::BusyBox
    } else {
        InitSystem::Unknown
    }
}

pub open spec fn kind_of(files: Seq<SeenPathView>) -> PlatformKind {
    if path_text(files, "/etc/openwrt_release"@) is Some {
        PlatformKind::OpenWrt
    } else if path_text(files, "/etc/os-release"@) is Some || path_exists(files, "/proc/version"@) {
        PlatformKind::GenericLinux
    } else {
        PlatformKind::Unknown
    }
}

pub open spec fn release_of(files: Seq<SeenPathView>) -> Option<Seq<char>> {
    match path_text(files, "/etc/openwrt_release"@) {
        Some(t) => assigned_from(lines(t), "DISTRIB_RELEASE"@, 0),
        None => None,
    }
}

pub open spec fn device_model_of(files: Seq<SeenPathView>, available: Seq<Seq<char>>) -> NetworkDeviceModel {
    if path_exists(files, "/sys/class/net/br-lan/bridge/vlan_filtering"@) {
        NetworkDeviceModel::Dsa
    } else if available.contains("swconfig"@) {
        NetworkDeviceModel::Swconfig
    } else {
        NetworkDeviceModel::Unknown
    }
}

pub open spec fn backend_of(files: Seq<SeenPathView>, available: Seq<Seq<char>>) -> FirewallBackend {
    if kind_of(files) == PlatformKind::OpenWrt {
        openwrt_backend(
            available.contains("fw3"@),
            available.contains("fw4"@),
            path_text(files, "/etc/init.d/firewall"@),
        )
    } else if available.contains("nft"@) {
        FirewallBackend::Nftables
    } else if available.contains("iptables-save"@) {
        FirewallBackend::Iptables
    } else {
        FirewallBackend::Unknown
    }
}

/// What the seen paths say of the platform.
pub open spec fn capabilities_of(files: Seq<SeenPathView>) -> PlatformCapabilitiesView {
    let available = seen_commands(Seq::empty(), files, known_commands(), 0);
    let kind = kind_of(files);
    let release = release_of(files);
    let supported = kind != PlatformKind::OpenWrt || is_supported(release);
    let backend = backend_of(files, available);
    PlatformCapabilitiesView {
        kind,
        release,
        release_supported: supported,
        firewall: FirewallCapabilities {
            backend,
            has_iptables_save: available.contains("iptables-save"@),
            has_ip6tables_save: available.contains("ip6tables-save"@),
            has_nft: available.contains("nft"@),
            can_trace: available.contains("nft"@) && (backend == FirewallBackend::Fw4 || backend
                == FirewallBackend::Nftables),
        },
        device_model: device_model_of(files, available),
        package_manager: package_manager_of(files),
        init_system: init_system_of(files),
        has_ubus: available.contains("ubus"@),
        has_uci: available.contains("uci"@),
        has_procd: path_exists(files, "/sbin/procd"@),
        available_commands: available,
        warnings: WarningContextView {
            kind,
            release,
            release_supported: supported,
            backend,
            has_fw3: available.contains("fw3"@),
            has_fw4: available.contains("fw4"@),
            has_nft: available.contains("nft"@),
            has_iptables_save: available.contains("iptables-save"@),
            has_firewall_service: path_text(files, "/etc/init.d/firewall"@) is Some,
        }.warnings(),
    }
}

impl PlatformCapabilities {
    /// What the seen paths say of the platform.
    pub fn discover(files: Vec<SeenPath>) -> (r: Self)
        ensures
            r@ == capabilities_of(views(files@)),
    {
        Discovery::new(files).discover()
    }
}

fn find_entry<'a>(files: &'a Vec<SeenPath>, path: &str) -> (r: Option<&'a SeenPath>)
    ensures
        match r {
            Some(e) => entry_from(views(files@), path@, 0) == Some(e@),
            None => entry_from(views(files@), path@, 0) is None,
        },
{
    let mut i: usize = 0;
    while i < files.len()
        invariant
            i <= files@.len(),
            entry_from(views(files@), path@, i as int) == entry_from(views(files@), path@, 0),
        decreases files@.len() - i,
    {
        if same(files[i].path.as_str(), path) {
            return Some(&files[i]);
        }
        i = i + 1;
    }
    None
}

pub fn exists_in(files: &Vec<SeenPath>, path: &str) -> (r: bool)
    ensures
        r == path_exists(views(files@), path@),
{
    find_entry(files, path).is_some()
}

pub fn read_in(files: &Vec<SeenPath>, path: &str) -> (r: Option<String>)
    ensures
        opt(r) == path_text(views(files@), path@),
{
    match find_entry(files, path) {
        Some(e) => copy_opt(&e.text),
        None => None,
    }
}

fn file_under(files: &Vec<SeenPath>, directory: &str, command: &str) -> (r: bool)
    ensures
        r == path_is_file(views(files@), directory@ + command@),
{
    let mut path = directory.to_owned();
    path.append(command);
    match find_entry(files, path.as_str()) {
        Some(e) => e.is_file,
        None => false,
    }
}

pub fn command_in(files: &Vec<SeenPath>, command: &str) -> (r: bool)
    ensures
        r == command_seen(views(files@), command@),
{
    file_under(files, "/usr/sbin/", command) || file_under(files, "/usr/bin/", command)
        || file_under(files, "/sbin/", command) || file_under(files, "/bin/", command)
}

/// The commands of the list that were seen.
pub fn commands_in(files: &Vec<SeenPath>, commands: &[&str]) -> (r: Vec<String>)
    ensures
        views(r@) == seen_commands(Seq::empty(), views(files@), views(commands@), 0),
{
    let mut r: Vec<String> = Vec::new();
    let mut i: usize = 0;
    while i < commands.len()
        invariant
            i <= commands@.len(),
            seen_commands(views(r@), views(files@), views(commands@), i as int) == seen_commands(
                Seq::empty(),
                views(files@),
                views(commands@),
                0,
            ),
        decreases commands@.len() - i,
    {
        if command_in(files, commands[i]) {
            r.push(commands[i].to_owned());
        }
        i = i + 1;
    }
    r
}

/// The paths under the root that discovery asks about.
pub fn probe_paths(commands: &[&str]) -> (r: Vec<String>)
    ensures
        forall|i: int|
            0 <= i < commands@.len() ==> views(r@).contains("/usr/sbin/"@ + #[trigger] commands@[i]@)
                && views(r@).contains("/usr/bin/"@ + commands@[i]@) && views(r@).contains(
                "/sbin/"@ + commands@[i]@,
            ) && views(r@).contains("/bin/"@ + commands@[i]@),
        forall|i: int|
            0 <= i < fixed_paths().len() ==> views(r@).contains(#[trigger] fixed_paths()[i]),
{
    let fixed = [
        "/etc/openwrt_release",
        "/etc/os-release",
        "/proc/version",
        "/etc/init.d/firewall",
        "/sys/class/net/br-lan/bridge/vlan_filtering",
        "/sbin/procd",
        "/run/systemd/system",
        "/run/openrc",
        "/etc/inittab",
        "/bin/busybox",
    ];
    let mut r: Vec<String> = Vec::new();
    let mut i: usize = 0;
    assert(views(fixed@) =~= fixed_paths());
    while i < 10
        invariant
            i <= 10,
            views(fixed@) == fixed_paths(),
            forall|j: int| 0 <= j < i ==> views(r@).contains(#[trigger] fixed_paths()[j]),
        decreases 10 - i,
    {
        let ghost before = views(r@);
        r.push(fixed[i].to_owned());
        proof {
            lemma_push_keeps(before, fixed_paths()[i as int]);
        }
        i = i + 1;
    }
    i = 0;
    while i < commands.len()
        invariant
            i <= commands@.len(),
            forall|j: int| 0 <= j < 10 ==> views(r@).contains(#[trigger] fixed_paths()[j]),
            forall|j: int|
                0 <= j < i ==> views(r@).contains("/usr/sbin/"@ + #[trigger] commands@[j]@)
                    && views(r@).contains("/usr/bin/"@ + commands@[j]@) && views(r@).contains(
                    "/sbin/"@ + commands@[j]@,
                ) && views(r@).contains("/bin/"@ + commands@[j]@),
        decreases commands@.len() - i,
    {
        push_under(&mut r, "/usr/sbin/", commands[i]);
        push_under(&mut r, "/usr/bin/", commands[i]);
        push_under(&mut r, "/sbin/", commands[i]);
        push_under(&mut r, "/bin/", commands[i]);
        i = i + 1;
    }
    r
}

pub open spec fn fixed_paths() -> Seq<Seq<char>> {
    seq![
        "/etc/openwrt_release"@,
        "/etc/os-release"@,
        "/proc/version"@,
        "/etc/init.d/firewall"@,
        "/sys/class/net/br-lan/bridge/vlan_filtering"@,
        "/sbin/procd"@,
        "/run/systemd/system"@,
        "/run/openrc"@,
        "/etc/inittab"@,
        "/bin/busybox"@,
    ]
}

proof fn lemma_push_keeps(s: Seq<Seq<char>>, x: Seq<char>)
    ensures
        s.push(x).contains(x),
        forall|y: Seq<char>| #[trigger] s.contains(y) ==> s.push(x).contains(y),
{
    assert(s.push(x)[s.len() as int] == x);
    assert forall|y: Seq<char>| #[trigger] s.contains(y) implies s.push(x).contains(y) by {
        let k = choose|k: int| 0 <= k < s.len() && s[k] == y;
        assert(s.push(x)[k] == y);
    }
}

fn push_under(r: &mut Vec<String>, directory: &str, command: &str)
    ensures
        views(final(r)@).contains(directory@ + command@),
        forall|y: Seq<char>|
            #[trigger] views(old(r)@).contains(y) ==> views(final(r)@).contains(y),
{
    let mut path = directory.to_owned();
    path.append(command);
    let ghost before = views(r@);
    proof {
        lemma_push_keeps(before, path@);
    }
    r.push(path);
}

impl Discovery {
    /// Discovery over the paths that were seen below a root.
    pub fn new(files: Vec<SeenPath>) -> (r: Self)
        ensures
            r.files@ == files@,
    {
        Discovery { files }
    }

    /// The paths below the root that must be looked at.
    pub fn paths() -> (r: Vec<String>)
        ensures
            forall|i: int|
                0 <= i < known_commands().len() ==> views(r@).contains(
                    "/usr/sbin/"@ + #[trigger] known_commands()[i],
                ) && views(r@).contains("/usr/bin/"@ + known_commands()[i]) && views(r@).contains(
                    "/sbin/"@ + known_commands()[i],
                ) && views(r@).contains("/bin/"@ + known_commands()[i]),
            forall|i: int|
                0 <= i < fixed_paths().len() ==> views(r@).contains(#[trigger] fixed_paths()[i]),
    {
        let commands = [
            "ubus",
            "uci",
            "fw3",
            "fw4",
            "iptables-save",
            "ip6tables-save",
            "nft",
            "swconfig",
            "opkg",
            "apk",
            "apt-get",
            "dnf",
            "pacman",
            "systemctl",
            "openrc",
            "iwinfo",
            "ip",
            "ss",
            "netstat",
        ];
        assert(views(commands@) =~= known_commands());
        let r = probe_paths(&commands);
        assert forall|i: int| 0 <= i < known_commands().len() implies views(r@).contains(
            "/usr/sbin/"@ + #[trigger] known_commands()[i],
        ) && views(r@).contains("/usr/bin/"@ + known_commands()[i]) && views(r@).contains(
            "/sbin/"@ + known_commands()[i],
        ) && views(r@).contains("/bin/"@ + known_commands()[i]) by {
            assert(known_commands()[i] == views(commands@)[i]);
            assert(views(commands@)[i] == commands@[i]@);
        }
        r
    }

    /// What the seen paths say of the platform.
    pub fn discover(&self) -> (r: PlatformCapabilities)
        ensures
            r@ == capabilities_of(views(self.files@)),
    {
        let release_text = read_in(&self.files, "/etc/openwrt_release");
        let os_release = read_in(&self.files, "/etc/os-release");
        let kind = if release_text.is_some() {
            PlatformKind::OpenWrt
        } else if os_release.is_some() || exists_in(&self.files, "/proc/version") {
            PlatformKind::GenericLinux
        } else {
            PlatformKind::Unknown
        };
        let release = match &release_text {
            Some(text) => release_value(text.as_str(), "DISTRIB_RELEASE"),
            None => None,
        };
        let release_supported = kind != PlatformKind::OpenWrt || supported_release(&release);
        let commands = [
            "ubus",
            "uci",
            "fw3",
            "fw4",
            "iptables-save",
            "ip6tables-save",
            "nft",
            "swconfig",
            "opkg",
            "apk",
            "apt-get",
            "dnf",
            "pacman",
            "systemctl",
            "openrc",
            "iwinfo",
            "ip",
            "ss",
            "netstat",
        ];
        assert(views(commands@) =~= known_commands());
        let available_commands = commands_in(&self.files, &commands);
        let has_fw3 = holds(&available_commands, "fw3");
        let has_fw4 = holds(&available_commands, "fw4");
        let has_nft = holds(&available_commands, "nft");
        let has_iptables_save = holds(&available_commands, "iptables-save");
        let firewall_service = read_in(&self.files, "/etc/init.d/firewall");
        let backend = if kind == PlatformKind::OpenWrt {
            select_openwrt_firewall_backend(has_fw3, has_fw4, &firewall_service)
        } else if has_nft {
            FirewallBackend::Nftables
        } else if has_iptables_save {
            FirewallBackend::Iptables
        } else {
            FirewallBackend::Unknown
        };
        let device_model = if exists_in(
            &self.files,
            "/sys/class/net/br-lan/bridge/vlan_filtering",
        ) {
            NetworkDeviceModel::Dsa
        } else if holds(&available_commands, "swconfig") {
            NetworkDeviceModel::Swconfig
        } else {
            NetworkDeviceModel::Unknown
        };
        let package_manager = self.detect_package_manager();
        let init_system = self.detect_init_system();
        let warnings = capability_warnings(
            &WarningContext {
                kind,
                release: copy_opt(&release),
                release_supported,
                backend,
                has_fw3,
                has_fw4,
                has_nft,
                has_iptables_save,
                has_firewall_service: firewall_service.is_some(),
            },
        );
        let has_ip6tables_save = holds(&available_commands, "ip6tables-save");
        let has_ubus = holds(&available_commands, "ubus");
        let has_uci = holds(&available_commands, "uci");
        let has_procd = exists_in(&self.files, "/sbin/procd");
        PlatformCapabilities {
            kind,
            release,
            release_supported,
            firewall: FirewallCapabilities {
                backend,
                has_iptables_save,
                has_ip6tables_save,
                has_nft,
                can_trace: has_nft && (backend == FirewallBackend::Fw4 || backend
                    == FirewallBackend::Nftables),
            },
            device_model,
            package_manager,
            init_system,
            has_ubus,
            has_uci,
            has_procd,
            available_commands,
            warnings,
        }
    }

    fn detect_init_system(&self) -> (r: InitSystem)
        ensures
            r == init_system_of(views(self.files@)),
    {
        if exists_in(&self.files, "/sbin/procd") {
            InitSystem::Procd
        } else if exists_in(&self.files, "/run/systemd/system") || command_in(
            &self.files,
            "systemctl",
        ) {
            InitSystem::Systemd
        } else if exists_in(&self.files, "/run/openrc") || command_in(&self.files, "openrc") {
            InitSystem::OpenRc
        } else if exists_in(&self.files, "/etc/inittab") && exists_in(
            &self.files,
            "/bin/busybox",
        ) {
            InitSystem::BusyBox
        } else {
            InitSystem::Unknown
        }
    }

    fn detect_package_manager(&self) -> (r: PackageManager)
        ensures
            r == package_manager_of(views(self.files@)),
    {
        if command_in(&self.files, "apk") {
            PackageManager::Apk
        } else if command_in(&self.files, "opkg") {
            PackageManager::Opkg
        } else if command_in(&self.files, "apt-get") {
            PackageManager::Apt
        } else if command_in(&self.files, "dnf") {
            PackageManager::Dnf
        } else if command_in(&self.files, "pacman") {
            PackageManager::Pacman
        } else {
            PackageManager::Unknown
        }
    }
}

pub fn supported_release(release: &Option<String>) -> (r: bool)
    ensures
        r == is_supported(opt(*release)),
{
    match release {
        Some(text) => match release_major(text.as_str()) {
            Some(major) => major >= MINIMUM_OPENWRT_MAJOR,
            None => false,
        },
        None => false,
    }
}

pub fn too_old_warning(release: &Option<String>) -> (r: String)
    ensures
        r@ == too_old(opt(*release)),
{
    let mut r = "OpenWrt ".to_owned();
    match release {
        Some(text) => r.append(text.as_str()),
        None => r.append("unknown"),
    }
    r.append(" is older than the minimum supported major version 21");
    r
}

fn capability_warnings(context: &WarningContext) -> (r: Vec<String>)
    ensures
        views(r@) == context@.warnings(),
{
    let mut warnings: Vec<String> = Vec::new();
    if context.kind == PlatformKind::OpenWrt && !context.release_supported {
        warnings.push(too_old_warning(&context.release));
    }
    if context.backend == FirewallBackend::Unknown {
        if context.kind == PlatformKind::OpenWrt {
            warnings.push("unable to identify the active fw3/fw4 firewall backend".to_owned());
        } else {
            warnings.push("unable to identify an nftables/iptables firewall backend".to_owned());
        }
    }
    if context.has_fw3 && context.has_fw4 && !context.has_firewall_service {
        warnings.push(
            "both fw3 and fw4 were found without readable firewall service evidence; using fw4 fallback".to_owned(),
        );
    }
    if context.backend == FirewallBackend::Fw4 && !context.has_nft {
        warnings.push("fw4 was found but nft is unavailable".to_owned());
    }
    if (context.backend == FirewallBackend::Fw3 || context.backend == FirewallBackend::Iptables)
        && !context.has_iptables_save {
        warnings.push("iptables backend was found but iptables-save is unavailable".to_owned());
    }
    warnings
}

/// Whether a text holds a word.
pub fn word_in(s: &str, word: &str) -> (r: bool)
    ensures
        r == has_word(s@, word@),
{
    let cs = chars_of(s);
    let w = chars_of(word);
    if w.len() > cs.len() {
        return false;
    }
    let total: usize = cs.len();
    let last: usize = total - w.len();
    let mut i: usize = 0;
    while i <= last
        invariant
            total == cs@.len(),
            cs@ == s@,
            w@ == word@,
            last + w@.len() == cs@.len(),
            i <= last + 1,
            forall|j: int| 0 <= j < i ==> !#[trigger] word_at(s@, word@, j),
        decreases last + 1 - i,
    {
        let end: usize = i + w.len();
        if chars_are(piece(cs.as_slice(), i, end), word) && (i == 0 || !cs[i - 1].is_alphanumeric())
            && (end == cs.len() || !cs[end].is_alphanumeric()) {
            assert(word_at(s@, word@, i as int));
            return true;
        }
        if i == last {
            assert forall|j: int| !#[trigger] word_at(s@, word@, j) by {}
            return false;
        }
        i = i + 1;
    }
    false
}

/// Selects between the installed backends by what the service script names.
pub fn select_openwrt_firewall_backend(
    has_fw3: bool,
    has_fw4: bool,
    service_script: &Option<String>,
) -> (r: FirewallBackend)
    ensures
        r == openwrt_backend(has_fw3, has_fw4, opt(*service_script)),
{
    match service_script {
        Some(script) => {
            if has_fw4 && word_in(script.as_str(), "fw4") {
                return FirewallBackend::Fw4;
            }
            if has_fw3 && word_in(script.as_str(), "fw3") {
                return FirewallBackend::Fw3;
            }
        },
        None => {},
    }
    if has_fw4 {
        FirewallBackend::Fw4
    } else if has_fw3 {
        FirewallBackend::Fw3
    } else {
        FirewallBackend::Unknown
    }
}

fn unquoted(s: &[char]) -> (r: &[char])
    ensures
        r@ == unquote(s@),
{
    let mut a: usize = 0;
    while a < s.len() && (s[a] == '\'' || s[a] == '"')
        invariant
            a <= s@.len(),
            quotes_end(s@, a as int) == quotes_end(s@, 0),
        decreases s@.len() - a,
    {
        a = a + 1;
    }
    let mut b: usize = s.len();
    while b > a && (s[b - 1] == '\'' || s[b - 1] == '"')
        invariant
            a <= b <= s@.len(),
            quotes_start(s@, a as int, b as int) == quotes_start(s@, a as int, s@.len() as int),
        decreases b,
    {
        b = b - 1;
    }
    piece(s, a, b)
}

/// The value of the first line that assigns one to the key.
pub fn release_value(text: &str, key: &str) -> (r: Option<String>)
    ensures
        opt(r) == assigned_from(lines(text@), key@, 0),
{
    let rows = split_lines(chars_of(text).as_slice());
    let mut i: usize = 0;
    while i < rows.len()
        invariant
            i <= rows@.len(),
            views(rows@) == lines(text@),
            assigned_from(lines(text@), key@, i as int) == assigned_from(lines(text@), key@, 0),
        decreases rows@.len() - i,
    {
        assert(lines(text@)[i as int] == rows@[i as int]@);
        match cut(rows[i].as_slice(), '=') {
            Some((k, v)) => {
                if chars_are(trimmed(k), key) {
                    return Some(string_of(unquoted(trimmed(v))));
                }
            },
            None => {},
        }
        i = i + 1;
    }
    None
}

/// The number before the first full stop.
pub fn release_major(release: &str) -> (r: Option<u32>)
    ensures
        r is Some == major_of(release@) is Some,
        r is Some ==> Some(r->Some_0 as nat) == major_of(release@),
{
    let cs = chars_of(release);
    let k: usize = find(cs.as_slice(), '.', 0);
    let head = piece(cs.as_slice(), 0, k);
    assert(head@ =~= release@.take(k as int));
    match parse_decimal(head, u32::MAX as u64) {
        Some(v) => Some(v as u32),
        None => None,
    }
}

pub proof fn lemma_seen_commands(
    acc: Seq<Seq<char>>,
    files: Seq<SeenPathView>,
    commands: Seq<Seq<char>>,
    i: int,
    x: Seq<char>,
)
    requires
        0 <= i <= commands.len(),
    ensures
        seen_commands(acc, files, commands, i).contains(x) <==> acc.contains(x) || (command_seen(
            files,
            x,
        ) && exists|j: int| i <= j < commands.len() && commands[j] == x),
    decreases commands.len() - i,
{
    if i < commands.len() {
        if command_seen(files, commands[i]) {
            let next = acc.push(commands[i]);
            lemma_seen_commands(next, files, commands, i + 1, x);
            assert(next.contains(x) <==> acc.contains(x) || commands[i] == x) by {
                lemma_push_keeps(acc, commands[i]);
                if next.contains(x) && commands[i] != x {
                    let k = choose|k: int| 0 <= k < next.len() && next[k] == x;
                    assert(acc[k] == x);
                }
            }
        } else {
            lemma_seen_commands(acc, files, commands, i + 1, x);
        }
    }
}

/// A command is reported available exactly when it is one of the known commands and one of the
/// program directories holds it.
pub proof fn law_available_commands(files: Seq<SeenPathView>, command: Seq<char>)
    ensures
        capabilities_of(files).available_commands.contains(command) <==> known_commands().contains(
            command,
        ) && command_seen(files, command),
{
    lemma_seen_commands(Seq::empty(), files, known_commands(), 0, command);
}

/// A release below the minimum is never reported as supported on OpenWrt, and an unreadable one is
/// not either.
pub proof fn law_supported_release(files: Seq<SeenPathView>)
    ensures
        ({
            let c = capabilities_of(files);
            c.kind == PlatformKind::OpenWrt && c.release_supported ==> c.release is Some && major_of(
                c.release->Some_0,
            ) is Some && major_of(c.release->Some_0)->Some_0 >= MINIMUM_OPENWRT_MAJOR
        }),
{
}

} // verus!
