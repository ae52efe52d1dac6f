//! What discovery reports of a platform, by what was seen on it.

use vstd::prelude::*;

use crate::net_laws::lemma_find_at;
use crate::number_laws::{law_decimal_round_trips, lemma_decimal};
use crate::platform::{
    alphanumeric, fixed_paths, init_system_of, is_supported, kind_of, package_manager_of, release_of,
    seen_commands, assigned, assigned_from, capabilities_of, command_seen, entry_from, has_word,
    known_commands, law_available_commands, path_exists, path_is_file, path_text, push_if, quotes_end,
    quotes_start, too_old, unquote, word_at, FirewallBackend, InitSystem, NetworkDeviceModel, PackageManager,
    PlatformKind, SeenPathView, WarningContextView,
};
use crate::text::{
    decimal, find_from, is_digit, is_white, lemma_find_from, lines, split_once, starts, trim, white_end,
    white_start,
};

verus! {

/// Whether an entry is the first one of its path.
pub open spec fn is_first(files: Seq<SeenPathView>, path: Seq<char>, i: int) -> bool {
    0 <= i < files.len() && files[i].path == path && forall|j: int|
        0 <= j < i ==> (#[trigger] files[j]).path != path
}

proof fn lemma_entry(files: Seq<SeenPathView>, path: Seq<char>, from: int, i: int)
    requires
        is_first(files, path, i),
        0 <= from <= i,
    ensures
        entry_from(files, path, from) == Some(files[i]),
    decreases i - from,
{
    if from < i {
        lemma_entry(files, path, from + 1, i);
    }
}

proof fn lemma_no_entry(files: Seq<SeenPathView>, path: Seq<char>, from: int)
    requires
        0 <= from <= files.len(),
        forall|j: int| 0 <= j < files.len() ==> (#[trigger] files[j]).path != path,
    ensures
        entry_from(files, path, from) is None,
    decreases files.len() - from,
{
    if from < files.len() {
        lemma_no_entry(files, path, from + 1);
    }
}

proof fn lemma_some_first(files: Seq<SeenPathView>, path: Seq<char>, i: int) -> (k: int)
    requires
        0 <= i < files.len(),
        files[i].path == path,
    ensures
        is_first(files, path, k),
    decreases i,
{
    if exists|j: int| 0 <= j < i && files[j].path == path {
        let j = choose|j: int| 0 <= j < i && files[j].path == path;
        lemma_some_first(files, path, j)
    } else {
        i
    }
}

/// A path is there exactly where an entry names it, and its first entry says what it is and holds.
pub proof fn law_paths_are_what_was_seen(files: Seq<SeenPathView>, path: Seq<char>)
    ensures
        path_exists(files, path) <==> exists|i: int|
            0 <= i < files.len() && (#[trigger] files[i]).path == path,
        forall|i: int| #[trigger]
            is_first(files, path, i) ==> path_text(files, path) == files[i].text && path_is_file(
                files,
                path,
            ) == files[i].is_file,
        !path_exists(files, path) ==> path_text(files, path) is None && !path_is_file(files, path),
{
    if exists|i: int| 0 <= i < files.len() && (#[trigger] files[i]).path == path {
        let i = choose|i: int| 0 <= i < files.len() && (#[trigger] files[i]).path == path;
        let k = lemma_some_first(files, path, i);
        lemma_entry(files, path, 0, k);
    } else {
        lemma_no_entry(files, path, 0);
    }
    assert forall|i: int| #[trigger] is_first(files, path, i) implies path_text(files, path)
        == files[i].text && path_is_file(files, path) == files[i].is_file by {
        lemma_entry(files, path, 0, i);
    }
}

/// Whether a regular file is the first entry of a path.
pub open spec fn is_installed(files: Seq<SeenPathView>, path: Seq<char>) -> bool {
    exists|i: int| #[trigger] is_first(files, path, i) && files[i].is_file
}

/// Whether a program is installed in one of the four program directories.
pub open spec fn has_program(files: Seq<SeenPathView>, name: Seq<char>) -> bool {
    is_installed(files, "/usr/sbin/"@ + name) || is_installed(files, "/usr/bin/"@ + name)
        || is_installed(files, "/sbin/"@ + name) || is_installed(files, "/bin/"@ + name)
}

proof fn lemma_installed(files: Seq<SeenPathView>, path: Seq<char>)
    ensures
        is_installed(files, path) == path_is_file(files, path),
{
    law_paths_are_what_was_seen(files, path);
    if path_is_file(files, path) {
        let i = choose|i: int| 0 <= i < files.len() && (#[trigger] files[i]).path == path;
        let k = lemma_some_first(files, path, i);
        assert(is_first(files, path, k));
    }
}

/// A program is seen exactly where one of the program directories holds it as a regular file.
pub proof fn law_programs_are_regular_files(files: Seq<SeenPathView>, name: Seq<char>)
    ensures
        command_seen(files, name) == has_program(files, name),
{
    lemma_installed(files, "/usr/sbin/"@ + name);
    lemma_installed(files, "/usr/bin/"@ + name);
    lemma_installed(files, "/sbin/"@ + name);
    lemma_installed(files, "/bin/"@ + name);
}

proof fn lemma_known(files: Seq<SeenPathView>, name: Seq<char>, k: int)
    requires
        0 <= k < known_commands().len(),
        known_commands()[k] == name,
    ensures
        capabilities_of(files).available_commands.contains(name) == has_program(files, name),
{
    law_available_commands(files, name);
    law_programs_are_regular_files(files, name);
    assert(known_commands().contains(name));
}

/// What is reported of a tool is whether the tool is installed.
pub proof fn law_tools_are_reported(files: Seq<SeenPathView>)
    ensures
        ({
            let c = capabilities_of(files);
            &&& c.has_ubus == has_program(files, "ubus"@)
            &&& c.has_uci == has_program(files, "uci"@)
            &&& c.firewall.has_nft == has_program(files, "nft"@)
            &&& c.firewall.has_iptables_save == has_program(files, "iptables-save"@)
            &&& c.firewall.has_ip6tables_save == has_program(files, "ip6tables-save"@)
            &&& c.has_procd == exists|i: int|
                0 <= i < files.len() && (#[trigger] files[i]).path == "/sbin/procd"@
        }),
{
    lemma_known(files, "ubus"@, 0);
    lemma_known(files, "uci"@, 1);
    lemma_known(files, "iptables-save"@, 4);
    lemma_known(files, "ip6tables-save"@, 5);
    lemma_known(files, "nft"@, 6);
    law_paths_are_what_was_seen(files, "/sbin/procd"@);
}

/// Whether the text of a path was read.
pub open spec fn is_readable(files: Seq<SeenPathView>, path: Seq<char>) -> bool {
    exists|i: int| #[trigger] is_first(files, path, i) && files[i].text is Some
}

pub proof fn lemma_readable(files: Seq<SeenPathView>, path: Seq<char>)
    ensures
        is_readable(files, path) == path_text(files, path) is Some,
{
    law_paths_are_what_was_seen(files, path);
    if path_text(files, path) is Some {
        let i = choose|i: int| 0 <= i < files.len() && (#[trigger] files[i]).path == path;
        let k = lemma_some_first(files, path, i);
        assert(is_first(files, path, k));
    }
}

/// A platform is OpenWrt exactly where its release file was read, and of the others one is a Linux where
/// another release file was read or the kernel tells its version.
pub proof fn law_kind_is_by_release_files(files: Seq<SeenPathView>)
    ensures
        ({
            let kind = capabilities_of(files).kind;
            let linux = is_readable(files, "/etc/os-release"@) || exists|i: int|
                0 <= i < files.len() && (#[trigger] files[i]).path == "/proc/version"@;
            &&& is_readable(files, "/etc/openwrt_release"@) <==> kind == PlatformKind::OpenWrt
            &&& kind == PlatformKind::GenericLinux ==> linux
            &&& kind == PlatformKind::Unknown ==> !linux
        }),
{
    lemma_readable(files, "/etc/openwrt_release"@);
    lemma_readable(files, "/etc/os-release"@);
    law_paths_are_what_was_seen(files, "/proc/version"@);
}

/// An OpenWrt backend is one that is installed. With one installed it is that one; with both, the older is
/// chosen only where the service script names it and does not name the newer. Elsewhere nftables comes
/// before iptables, each where its tool is installed.
pub proof fn law_backend_is_installed(files: Seq<SeenPathView>, i: int)
    ensures
        ({
            let c = capabilities_of(files);
            let backend = c.firewall.backend;
            let old = has_program(files, "fw3"@);
            let new = has_program(files, "fw4"@);
            &&& c.kind == PlatformKind::OpenWrt ==> {
                &&& backend == FirewallBackend::Fw4 ==> new
                &&& backend == FirewallBackend::Fw3 ==> old
                &&& backend == FirewallBackend::Unknown <==> !old && !new
                &&& backend == FirewallBackend::Fw3 || backend == FirewallBackend::Fw4 || backend
                    == FirewallBackend::Unknown
                &&& old && new && is_first(files, "/etc/init.d/firewall"@, i) ==> (backend
                    == FirewallBackend::Fw3 <==> files[i].text is Some && has_word(
                    files[i].text->Some_0,
                    "fw3"@,
                ) && !has_word(files[i].text->Some_0, "fw4"@))
                &&& old && new && !is_readable(files, "/etc/init.d/firewall"@) ==> backend
                    == FirewallBackend::Fw4
            }
            &&& c.kind != PlatformKind::OpenWrt ==> {
                &&& backend == FirewallBackend::Nftables <==> has_program(files, "nft"@)
                &&& backend == FirewallBackend::Iptables <==> has_program(files, "iptables-save"@)
                    && !has_program(files, "nft"@)
                &&& backend == FirewallBackend::Unknown <==> !has_program(files, "iptables-save"@)
                    && !has_program(files, "nft"@)
            }
            &&& c.firewall.can_trace <==> has_program(files, "nft"@) && (backend
                == FirewallBackend::Fw4 || backend == FirewallBackend::Nftables)
        }),
{
    lemma_known(files, "fw3"@, 2);
    lemma_known(files, "fw4"@, 3);
    lemma_known(files, "iptables-save"@, 4);
    lemma_known(files, "nft"@, 6);
    lemma_readable(files, "/etc/init.d/firewall"@);
    law_paths_are_what_was_seen(files, "/etc/init.d/firewall"@);
}

/// A word stands in a text exactly where it is there between characters that are no letters and no digits, or at an
/// end.
pub proof fn law_words_stand_alone(s: Seq<char>, word: Seq<char>, a: Seq<char>, b: Seq<char>)
    ensures
        s == a + word + b && (a.len() == 0 || !alphanumeric(a.last())) && (b.len() == 0 || !alphanumeric(b[0]))
            ==> has_word(s, word),
        has_word(s, word) ==> exists|i: int|
            0 <= i && i + word.len() <= s.len() && (#[trigger] s.skip(i)).take(word.len() as int) == word && (i == 0
                || !alphanumeric(s[i - 1])) && (i + word.len() == s.len() || !alphanumeric(
                s[i + word.len() as int],
            )),
{
    if s == a + word + b && (a.len() == 0 || !alphanumeric(a.last())) && (b.len() == 0 || !alphanumeric(b[0])) {
        assert(s.subrange(a.len() as int, a.len() as int + word.len()) =~= word);
        assert(word_at(s, word, a.len() as int));
    }
    if has_word(s, word) {
        let i = choose|i: int| #[trigger] word_at(s, word, i);
        assert(s.skip(i).take(word.len() as int) =~= s.subrange(i, i + word.len()));
    }
}

/// What installs packages is installed itself, none is named only where none is there, and the tools of the
/// distributions that have several come in one order.
pub proof fn law_package_manager_is_installed(files: Seq<SeenPathView>)
    ensures
        ({
            let m = capabilities_of(files).package_manager;
            let apk = has_program(files, "apk"@);
            let opkg = has_program(files, "opkg"@);
            let apt = has_program(files, "apt-get"@);
            let dnf = has_program(files, "dnf"@);
            let pacman = has_program(files, "pacman"@);
            &&& m == PackageManager::Apk <==> apk
            &&& m == PackageManager::Opkg <==> opkg && !apk
            &&& m == PackageManager::Apt ==> apt && !opkg && !apk
            &&& m == PackageManager::Dnf ==> dnf && !apt && !opkg && !apk
            &&& m == PackageManager::Pacman ==> pacman && !dnf && !apt && !opkg && !apk
            &&& m == PackageManager::Unknown <==> !apk && !opkg && !apt && !dnf && !pacman
        }),
{
    law_programs_are_regular_files(files, "apk"@);
    law_programs_are_regular_files(files, "opkg"@);
    law_programs_are_regular_files(files, "apt-get"@);
    law_programs_are_regular_files(files, "dnf"@);
    law_programs_are_regular_files(files, "pacman"@);
}

/// Whether an entry names a path.
pub open spec fn is_seen(files: Seq<SeenPathView>, path: Seq<char>) -> bool {
    exists|i: int| 0 <= i < files.len() && (#[trigger] files[i]).path == path
}

/// What starts services left a trace of itself, none is named only where none left one, and one that left a
/// trace gives way only to those before it.
pub proof fn law_init_system_left_a_trace(files: Seq<SeenPathView>)
    ensures
        ({
            let s = capabilities_of(files).init_system;
            let procd = is_seen(files, "/sbin/procd"@);
            let systemd = is_seen(files, "/run/systemd/system"@) || has_program(files, "systemctl"@);
            let openrc = is_seen(files, "/run/openrc"@) || has_program(files, "openrc"@);
            let busybox = is_seen(files, "/etc/inittab"@) && is_seen(files, "/bin/busybox"@);
            &&& s == InitSystem::Procd <==> procd
            &&& s == InitSystem::Systemd <==> systemd && !procd
            &&& s == InitSystem::OpenRc <==> openrc && !systemd && !procd
            &&& s == InitSystem::BusyBox ==> busybox && !openrc && !systemd && !procd
            &&& s == InitSystem::Unknown <==> !busybox && !openrc && !systemd && !procd
        }),
{
    law_paths_are_what_was_seen(files, "/sbin/procd"@);
    law_paths_are_what_was_seen(files, "/run/systemd/system"@);
    law_paths_are_what_was_seen(files, "/run/openrc"@);
    law_paths_are_what_was_seen(files, "/etc/inittab"@);
    law_paths_are_what_was_seen(files, "/bin/busybox"@);
    law_programs_are_regular_files(files, "systemctl"@);
    law_programs_are_regular_files(files, "openrc"@);
}

/// Switch ports are modelled by the bridge where it filters VLANs, and by the switch tool only where the
/// bridge does not.
pub proof fn law_device_model_is_by_the_bridge(files: Seq<SeenPathView>)
    ensures
        ({
            let m = capabilities_of(files).device_model;
            let filtered = is_seen(files, "/sys/class/net/br-lan/bridge/vlan_filtering"@);
            &&& m == NetworkDeviceModel::Dsa <==> filtered
            &&& m == NetworkDeviceModel::Swconfig <==> has_program(files, "swconfig"@) && !filtered
            &&& m == NetworkDeviceModel::Unknown <==> !has_program(files, "swconfig"@) && !filtered
        }),
{
    law_paths_are_what_was_seen(files, "/sys/class/net/br-lan/bridge/vlan_filtering"@);
    lemma_known(files, "swconfig"@, 7);
}

/// Whether a text has neither quotes nor white space at its ends.
pub open spec fn is_bare(s: Seq<char>) -> bool {
    s.len() > 0 && !is_white(s[0]) && !is_white(s.last()) && s[0] != '\'' && s[0] != '"' && s.last()
        != '\'' && s.last() != '"'
}

proof fn lemma_trim_same(s: Seq<char>)
    requires
        s.len() > 0,
        !is_white(s[0]),
        !is_white(s.last()),
    ensures
        trim(s) == s,
{
    assert(white_end(s, 0) == 0);
    assert(white_start(s, 0, s.len() as int) == s.len());
    assert(s.subrange(0, s.len() as int) =~= s);
}

proof fn lemma_unquote(v: Seq<char>, q: char)
    requires
        is_bare(v),
        q == '\'' || q == '"',
    ensures
        unquote(seq![q] + v + seq![q]) == v,
        unquote(v) == v,
{
    let s = seq![q] + v + seq![q];
    assert(s[0] == q && s[1] == v[0]);
    assert(quotes_end(s, 1) == 1);
    assert(quotes_end(s, 0) == 1);
    let n = s.len() as int;
    assert(s[n - 1] == q);
    assert(s[n - 2] == v.last());
    assert(quotes_start(s, 1, n - 1) == n - 1);
    assert(quotes_start(s, 1, n) == n - 1);
    assert(s.subrange(1, n - 1) =~= v);
    assert(quotes_end(v, 0) == 0);
    assert(quotes_start(v, 0, v.len() as int) == v.len());
    assert(v.subrange(0, v.len() as int) =~= v);
}

proof fn lemma_assigned(key: Seq<char>, raw: Seq<char>)
    requires
        key.len() > 0,
        !is_white(key[0]),
        !is_white(key.last()),
        forall|i: int| 0 <= i < key.len() ==> #[trigger] key[i] != '=',
        raw.len() > 0,
        !is_white(raw[0]),
        !is_white(raw.last()),
    ensures
        assigned(key + "="@ + raw, key) == Some(unquote(raw)),
{
    reveal_strlit("=");
    let line = key + "="@ + raw;
    let k = key.len() as int;
    assert(line[k] == '=');
    lemma_find_at(line, '=', 0, k);
    assert(line.take(k) =~= key);
    assert(line.skip(k + 1) =~= raw);
    lemma_trim_same(key);
    lemma_trim_same(raw);
}

proof fn lemma_assigned_from(all: Seq<Seq<char>>, key: Seq<char>, from: int, k: int)
    requires
        0 <= from <= k < all.len(),
        forall|j: int| 0 <= j < k ==> assigned(#[trigger] all[j], key) is None,
        assigned(all[k], key) is Some,
    ensures
        assigned_from(all, key, from) == assigned(all[k], key),
    decreases k - from,
{
    if from < k {
        lemma_assigned_from(all, key, from + 1, k);
    }
}

/// Whether a line begins with a text, behind white space.
pub open spec fn begins(line: Seq<char>, text: Seq<char>) -> bool {
    starts(line.skip(white_end(line, 0)), text)
}

proof fn lemma_white_bounds(s: Seq<char>, i: int)
    requires
        0 <= i <= s.len(),
    ensures
        i <= white_end(s, i) <= s.len(),
        forall|k: int| i <= k < white_end(s, i) ==> is_white(#[trigger] s[k]),
    decreases s.len() - i,
{
    if i < s.len() && is_white(s[i]) {
        lemma_white_bounds(s, i + 1);
    }
}

proof fn lemma_start_bounds(s: Seq<char>, from: int, j: int)
    requires
        0 <= from <= j <= s.len(),
    ensures
        from <= white_start(s, from, j) <= j,
    decreases j,
{
    if from < j && is_white(s[j - 1]) {
        lemma_start_bounds(s, from, j - 1);
    }
}

proof fn lemma_white_end_take(s: Seq<char>, k: int, i: int)
    requires
        0 <= i <= k <= s.len(),
        white_end(s.take(k), i) < k,
    ensures
        white_end(s, i) == white_end(s.take(k), i),
    decreases k - i,
{
    if i < k {
        assert(s.take(k)[i] == s[i]);
        if is_white(s[i]) {
            lemma_white_end_take(s, k, i + 1);
        }
    }
}

/// A line that does not begin with a key assigns nothing to it.
proof fn lemma_unassigned(line: Seq<char>, key: Seq<char>)
    requires
        !begins(line, key),
        key.len() > 0,
    ensures
        assigned(line, key) is None,
{
    if let Some((k, v)) = split_once(line, '=') {
        let n = find_from(line, '=', 0);
        lemma_find_from(line, '=', 0);
        assert(k == line.take(n));
        if trim(k) == key {
            let a = white_end(k, 0);
            lemma_white_bounds(k, 0);
            let b = white_start(k, a, k.len() as int);
            lemma_start_bounds(k, a, k.len() as int);
            assert(k.subrange(a, b) == key);
            assert(a < b);
            lemma_white_end_take(line, n, 0);
            let rest = line.skip(a);
            assert(rest.take(key.len() as int) =~= k.subrange(a, b));
            assert(begins(line, key));
        }
    }
}

proof fn lemma_release_key()
    ensures
        ({
            let key = "DISTRIB_RELEASE"@;
            &&& key.len() == 15
            &&& !is_white(key[0])
            &&& !is_white(key.last())
            &&& forall|i: int| 0 <= i < key.len() ==> #[trigger] key[i] != '='
        }),
{
    reveal_strlit("DISTRIB_RELEASE");
    let key = "DISTRIB_RELEASE"@;
    assert forall|i: int| 0 <= i < key.len() implies #[trigger] key[i] != '=' by {
        assert(i == 0 || i == 1 || i == 2 || i == 3 || i == 4 || i == 5 || i == 6 || i == 7 || i == 8
            || i == 9 || i == 10 || i == 11 || i == 12 || i == 13 || i == 14);
    }
}

/// The release is what the first line of the release file that begins with its key says, between quotes of
/// either kind or bare.
pub proof fn law_release_is_read_from_its_line(
    files: Seq<SeenPathView>,
    f: int,
    k: int,
    v: Seq<char>,
    q: char,
)
    requires
        is_first(files, "/etc/openwrt_release"@, f),
        files[f].text is Some,
        0 <= k < lines(files[f].text->Some_0).len(),
        forall|j: int|
            0 <= j < k ==> !begins(#[trigger] lines(files[f].text->Some_0)[j], "DISTRIB_RELEASE"@),
        is_bare(v),
        q == '\'' || q == '"',
        ({
            let line = lines(files[f].text->Some_0)[k];
            line == "DISTRIB_RELEASE"@ + "="@ + (seq![q] + v + seq![q]) || line == "DISTRIB_RELEASE"@
                + "="@ + v
        }),
    ensures
        capabilities_of(files).release == Some(v),
{
    let path = "/etc/openwrt_release"@;
    let key = "DISTRIB_RELEASE"@;
    let all = lines(files[f].text->Some_0);
    law_paths_are_what_was_seen(files, path);
    assert(path_text(files, path) == files[f].text);
    lemma_release_key();
    lemma_unquote(v, q);
    let raw = seq![q] + v + seq![q];
    assert(raw[0] == q && raw.last() == q);
    assert(!is_white('\'') && !is_white('"'));
    lemma_assigned(key, raw);
    lemma_assigned(key, v);
    assert forall|j: int| 0 <= j < k implies assigned(#[trigger] all[j], key) is None by {
        lemma_unassigned(all[j], key);
    }
    lemma_assigned_from(all, key, 0, k);
}

/// Whether a text is a release of a major number: the number, and a full stop before anything more.
pub open spec fn is_release_of(release: Seq<char>, major: nat) -> bool {
    starts(release, decimal(major)) && (release.len() == decimal(major).len()
        || release[decimal(major).len() as int] == '.')
}

/// A release of a major number is supported exactly from 21 on, one that does not begin with a digit is not unless a
/// sign stands first, and without a release nothing is.
pub proof fn law_major_numbers_from_the_minimum_on_are_supported(r: Seq<char>, major: nat)
    ensures
        is_release_of(r, major) && major <= u32::MAX ==> (is_supported(Some(r)) <==> major >= 21),
        r.len() == 0 || !is_digit(r[0]) && r[0] != '+' ==> !is_supported(Some(r)),
        !is_supported(None),
{
    let k = find_from(r, '.', 0);
    lemma_find_from(r, '.', 0);
    if is_release_of(r, major) && major <= u32::MAX {
        let d = decimal(major);
        lemma_decimal(major);
        law_decimal_round_trips(major, u32::MAX as nat);
        assert(r.take(d.len() as int) == d);
        assert forall|j: int| 0 <= j < d.len() implies r[j] != '.' by {
            assert(r[j] == d[j]);
            assert(is_digit(d[j]));
        }
        if r.len() == d.len() {
            assert(k == r.len());
        } else {
            lemma_find_at(r, '.', 0, d.len() as int);
        }
        assert(r.take(k) =~= d);
    }
    if r.len() == 0 {
        assert(r.take(k).len() == 0);
    } else if !is_digit(r[0]) && r[0] != '+' {
        let h = r.take(k);
        if h.len() > 0 {
            assert(h[0] == r[0]);
            assert(!is_digit(h[0]));
        }
    }
}

/// On OpenWrt a release of a major number is supported exactly from 21 on, a release that does not begin
/// with a digit is not unless a sign stands first, and without a release nothing is. Other platforms have
/// no such bound.
pub proof fn law_releases_from_the_minimum_on_are_supported(files: Seq<SeenPathView>, major: nat)
    ensures
        ({
            let c = capabilities_of(files);
            &&& c.kind == PlatformKind::OpenWrt && c.release is Some && is_release_of(
                c.release->Some_0,
                major,
            ) && major <= u32::MAX ==> (c.release_supported <==> major >= 21)
            &&& c.kind == PlatformKind::OpenWrt && c.release is Some && (c.release->Some_0.len() == 0
                || !is_digit(c.release->Some_0[0]) && c.release->Some_0[0] != '+')
                ==> !c.release_supported
            &&& c.kind == PlatformKind::OpenWrt && c.release is None ==> !c.release_supported
            &&& c.kind != PlatformKind::OpenWrt ==> c.release_supported
        }),
{
    let c = capabilities_of(files);
    if let Some(r) = c.release {
        law_major_numbers_from_the_minimum_on_are_supported(r, major);
    }
}

pub proof fn lemma_push_if(s: Seq<Seq<char>>, test: bool, x: Seq<char>, y: Seq<char>)
    ensures
        push_if(s, test, x).contains(y) <==> s.contains(y) || (test && x == y),
{
    let t = push_if(s, test, x);
    if s.contains(y) {
        let k = choose|k: int| 0 <= k < s.len() && s[k] == y;
        assert(t[k] == y);
    }
    if test && x == y {
        assert(t[s.len() as int] == y);
    }
    if t.contains(y) && !(test && x == y) {
        let k = choose|k: int| 0 <= k < t.len() && t[k] == y;
        assert(s[k] == y);
    }
}

/// What is warned of.
proof fn lemma_warned(c: WarningContextView, y: Seq<char>)
    ensures
        c.warnings().contains(y) <==> {
            ||| c.kind == PlatformKind::OpenWrt && !c.release_supported && y == too_old(c.release)
            ||| c.backend == FirewallBackend::Unknown && y == (if c.kind == PlatformKind::OpenWrt {
                "unable to identify the active fw3/fw4 firewall backend"@
            } else {
                "unable to identify an nftables/iptables firewall backend"@
            })
            ||| c.has_fw3 && c.has_fw4 && !c.has_firewall_service && y
                == "both fw3 and fw4 were found without readable firewall service evidence; using fw4 fallback"@
            ||| c.backend == FirewallBackend::Fw4 && !c.has_nft && y
                == "fw4 was found but nft is unavailable"@
            ||| (c.backend == FirewallBackend::Fw3 || c.backend == FirewallBackend::Iptables)
                && !c.has_iptables_save && y
                == "iptables backend was found but iptables-save is unavailable"@
        },
{
    let t1 = c.kind == PlatformKind::OpenWrt && !c.release_supported;
    let s1 = push_if(Seq::empty(), t1, too_old(c.release));
    lemma_push_if(Seq::empty(), t1, too_old(c.release), y);
    let x2 = if c.kind == PlatformKind::OpenWrt {
        "unable to identify the active fw3/fw4 firewall backend"@
    } else {
        "unable to identify an nftables/iptables firewall backend"@
    };
    let t2 = c.backend == FirewallBackend::Unknown;
    let s2 = push_if(s1, t2, x2);
    lemma_push_if(s1, t2, x2, y);
    let x3 =
        "both fw3 and fw4 were found without readable firewall service evidence; using fw4 fallback"@;
    let t3 = c.has_fw3 && c.has_fw4 && !c.has_firewall_service;
    let s3 = push_if(s2, t3, x3);
    lemma_push_if(s2, t3, x3, y);
    let x4 = "fw4 was found but nft is unavailable"@;
    let t4 = c.backend == FirewallBackend::Fw4 && !c.has_nft;
    let s4 = push_if(s3, t4, x4);
    lemma_push_if(s3, t4, x4, y);
    let x5 = "iptables backend was found but iptables-save is unavailable"@;
    let t5 = (c.backend == FirewallBackend::Fw3 || c.backend == FirewallBackend::Iptables)
        && !c.has_iptables_save;
    lemma_push_if(s4, t5, x5, y);
}

/// Each warning is given exactly where what it warns of is so: an unsupported release, a backend that was not
/// identified, two backends that nothing tells apart, and a backend without its tool.
pub proof fn law_warnings_say_what_is_wrong(files: Seq<SeenPathView>)
    ensures
        ({
            let c = capabilities_of(files);
            let w = c.warnings;
            let openwrt = c.kind == PlatformKind::OpenWrt;
            let old = openwrt && !c.release_supported;
            let both = has_program(files, "fw3"@) && has_program(files, "fw4"@) && !is_readable(
                files,
                "/etc/init.d/firewall"@,
            );
            &&& old <==> w.len() > 0 && starts(w[0], "OpenWrt "@)
            &&& old && c.release is Some ==> w[0] == "OpenWrt "@ + c.release->Some_0
                + " is older than the minimum supported major version 21"@
            &&& w.contains("unable to identify the active fw3/fw4 firewall backend"@) <==> openwrt
                && c.firewall.backend == FirewallBackend::Unknown
            &&& w.contains("unable to identify an nftables/iptables firewall backend"@) <==> !openwrt
                && c.firewall.backend == FirewallBackend::Unknown
            &&& w.contains(
                "both fw3 and fw4 were found without readable firewall service evidence; using fw4 fallback"@,
            ) <==> both
            &&& w.contains("fw4 was found but nft is unavailable"@) <==> c.firewall.backend
                == FirewallBackend::Fw4 && !has_program(files, "nft"@)
            &&& w.contains("iptables backend was found but iptables-save is unavailable"@) <==> (
            c.firewall.backend == FirewallBackend::Fw3 || c.firewall.backend
                == FirewallBackend::Iptables) && !has_program(files, "iptables-save"@)
        }),
{
    lemma_known(files, "fw3"@, 2);
    lemma_known(files, "fw4"@, 3);
    lemma_known(files, "iptables-save"@, 4);
    lemma_known(files, "nft"@, 6);
    lemma_readable(files, "/etc/init.d/firewall"@);
    let c = capabilities_of(files);
    let w = c.warnings;
    let prefix = "OpenWrt "@;
    let a = "unable to identify the active fw3/fw4 firewall backend"@;
    let b = "unable to identify an nftables/iptables firewall backend"@;
    let d =
        "both fw3 and fw4 were found without readable firewall service evidence; using fw4 fallback"@;
    let e = "fw4 was found but nft is unavailable"@;
    let f = "iptables backend was found but iptables-save is unavailable"@;
    reveal_strlit("OpenWrt ");
    reveal_strlit("unable to identify the active fw3/fw4 firewall backend");
    reveal_strlit("unable to identify an nftables/iptables firewall backend");
    reveal_strlit(
        "both fw3 and fw4 were found without readable firewall service evidence; using fw4 fallback",
    );
    reveal_strlit("fw4 was found but nft is unavailable");
    reveal_strlit("iptables backend was found but iptables-save is unavailable");
    assert(prefix[0] == 'O');
    assert(a[0] == 'u' && b[0] == 'u' && d[0] == 'b' && e[0] == 'f' && f[0] == 'i');
    assert(a[19] == 't' && b[19] == 'a' || a[20] == 'h' && b[20] == 'n' || a.len() != b.len());
    if c.kind == PlatformKind::OpenWrt && !c.release_supported {
        let x = too_old(c.release);
        assert(x.take(8) =~= prefix);
        assert(w[0] == x);
        assert(x[0] == 'O');
    }
    if w.len() > 0 && starts(w[0], prefix) {
        assert(w[0].take(8)[0] == w[0][0]);
    }
    let context = WarningContextView {
        kind: c.kind,
        release: c.release,
        release_supported: c.release_supported,
        backend: c.firewall.backend,
        has_fw3: has_program(files, "fw3"@),
        has_fw4: has_program(files, "fw4"@),
        has_nft: has_program(files, "nft"@),
        has_iptables_save: has_program(files, "iptables-save"@),
        has_firewall_service: is_readable(files, "/etc/init.d/firewall"@),
    };
    assert(w == context.warnings());
    let x = too_old(c.release);
    assert(x[0] == prefix[0]);
    lemma_warned(context, a);
    lemma_warned(context, b);
    lemma_warned(context, d);
    lemma_warned(context, e);
    lemma_warned(context, f);
}

proof fn lemma_same_commands(
    acc: Seq<Seq<char>>,
    a: Seq<SeenPathView>,
    b: Seq<SeenPathView>,
    commands: Seq<Seq<char>>,
    i: int,
)
    requires
        0 <= i <= commands.len(),
        forall|c: Seq<char>| #[trigger] command_seen(a, c) == command_seen(b, c),
    ensures
        seen_commands(acc, a, commands, i) == seen_commands(acc, b, commands, i),
    decreases commands.len() - i,
{
    if i < commands.len() {
        assert(command_seen(a, commands[i]) == command_seen(b, commands[i]));
        if command_seen(a, commands[i]) {
            lemma_same_commands(acc.push(commands[i]), a, b, commands, i + 1);
        } else {
            lemma_same_commands(acc, a, b, commands, i + 1);
        }
    }
}

/// Besides the commands, what discovery reports depends on nothing but the paths that it asks about.
pub proof fn law_discovery_depends_on_the_paths_asked_about(a: Seq<SeenPathView>, b: Seq<SeenPathView>)
    requires
        forall|c: Seq<char>| #[trigger] command_seen(a, c) == command_seen(b, c),
        forall|k: int|
            0 <= k < fixed_paths().len() ==> entry_from(a, #[trigger] fixed_paths()[k], 0) == entry_from(
                b,
                fixed_paths()[k],
                0,
            ),
    ensures
        capabilities_of(a) == capabilities_of(b),
{
    lemma_same_commands(Seq::empty(), a, b, known_commands(), 0);
    let p = fixed_paths();
    assert(p[0] == "/etc/openwrt_release"@);
    assert(p[1] == "/etc/os-release"@);
    assert(p[2] == "/proc/version"@);
    assert(p[3] == "/etc/init.d/firewall"@);
    assert(p[4] == "/sys/class/net/br-lan/bridge/vlan_filtering"@);
    assert(p[5] == "/sbin/procd"@);
    assert(p[6] == "/run/systemd/system"@);
    assert(p[7] == "/run/openrc"@);
    assert(p[8] == "/etc/inittab"@);
    assert(p[9] == "/bin/busybox"@);
    assert(command_seen(a, "apk"@) == command_seen(b, "apk"@));
    assert(kind_of(a) == kind_of(b));
    assert(release_of(a) == release_of(b));
    assert(package_manager_of(a) == package_manager_of(b));
    assert(init_system_of(a) == init_system_of(b));
}

} // verus!
