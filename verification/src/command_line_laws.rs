//! Which programs are run, with which words, and what is made of what they print.

use vstd::prelude::*;

use crate::firewall_command::{
    captured, concluded, first_executable, is_executable, prepared, specification_of, specified, CapturedView,
    CommandSpecificationView, ExecutableFacts, FirewallCommandErrorView, FirewallCommandOutputView,
    FirewallCommandRunnerView, FirewallCommandView, PathFactsView,
};
use crate::path::{is_absolute, is_plain, is_within, path_join};

verus! {

/// The words of a command: the program and its arguments. Nothing but a staged path varies.
pub open spec fn command_words(c: FirewallCommandView, path: Seq<char>) -> Seq<Seq<char>> {
    match c {
        FirewallCommandView::UciShowFirewall => seq!["uci"@, "-q"@, "show"@, "firewall"@],
        FirewallCommandView::UciShowNetwork => seq!["uci"@, "-q"@, "show"@, "network"@],
        FirewallCommandView::UciShowWireless => seq!["uci"@, "-q"@, "show"@, "wireless"@],
        FirewallCommandView::UciShowFirewallAt { .. } => seq!["uci"@, "-c"@, path, "-q"@, "show"@, "firewall"@],
        FirewallCommandView::UciShowNetworkAt { .. } => seq!["uci"@, "-c"@, path, "-q"@, "show"@, "network"@],
        FirewallCommandView::UciExportNetworkAt { .. } => seq!["uci"@, "-c"@, path, "-q"@, "export"@, "network"@],
        FirewallCommandView::UciShowWirelessAt { .. } => seq!["uci"@, "-c"@, path, "-q"@, "show"@, "wireless"@],
        FirewallCommandView::UciExportWirelessAt { .. } => seq!["uci"@, "-c"@, path, "-q"@, "export"@, "wireless"@],
        FirewallCommandView::UciBatch { .. } => seq!["uci"@, "-c"@, path, "batch"@],
        FirewallCommandView::Fw3PrintIpv4 { .. } => seq!["fw3"@, "-4"@, "-q"@, "print"@],
        FirewallCommandView::Fw3PrintIpv6 { .. } => seq!["fw3"@, "-6"@, "-q"@, "print"@],
        FirewallCommandView::Fw4Check { .. } => seq!["fw4"@, "-q"@, "check"@],
        FirewallCommandView::OpenWrtFirewallReload => seq!["/etc/init.d/firewall"@, "reload"@],
        FirewallCommandView::OpenWrtNetworkReload => seq!["/etc/init.d/network"@, "reload"@],
        FirewallCommandView::OpenWrtWirelessReload => seq!["/sbin/wifi"@, "reload"@],
        FirewallCommandView::IpJsonLink => seq!["ip"@, "-j"@, "link"@, "show"@],
        FirewallCommandView::IpJsonAddress => seq!["ip"@, "-j"@, "address"@, "show"@],
        FirewallCommandView::IpJsonRoute => seq!["ip"@, "-j"@, "route"@, "show"@, "table"@, "all"@],
        FirewallCommandView::IpJsonRule => seq!["ip"@, "-j"@, "rule"@, "show"@],
        FirewallCommandView::IpBatch { batch_file, continue_on_error } => if continue_on_error {
            seq!["ip"@, "-force"@, "-batch"@, path]
        } else {
            seq!["ip"@, "-batch"@, path]
        },
        FirewallCommandView::NftListTables => seq!["nft"@, "list"@, "tables"@],
        FirewallCommandView::NftListManagedTable => seq!["nft"@, "list"@, "table"@, "inet"@, "mbed_agent"@],
        FirewallCommandView::NftCheck { .. } => seq!["nft"@, "--check"@, "--file"@, path],
        FirewallCommandView::NftLoad { .. } => seq!["nft"@, "--file"@, path],
        FirewallCommandView::IptablesSave { ipv6 } => if ipv6 {
            seq!["ip6tables-save"@]
        } else {
            seq!["iptables-save"@]
        },
        FirewallCommandView::IptablesRestoreTest { ipv6 } => if ipv6 {
            seq!["ip6tables-restore"@, "--test"@, "--noflush"@]
        } else {
            seq!["iptables-restore"@, "--test"@, "--noflush"@]
        },
        FirewallCommandView::IptablesRestore { ipv6 } => if ipv6 {
            seq!["ip6tables-restore"@, "--noflush"@]
        } else {
            seq!["iptables-restore"@, "--noflush"@]
        },
    }
}

/// Whether a command finds its configuration by its environment.
pub open spec fn has_environment(c: FirewallCommandView) -> bool {
    c is Fw3PrintIpv4 || c is Fw3PrintIpv6 || c is Fw4Check
}

/// Each command has its fixed program and words. A loaded ruleset and its check are the same file, and a test of a
/// restore differs from the restore in one word.
pub proof fn law_commands_have_fixed_words(c: FirewallCommandView, path: Seq<char>)
    ensures
        ({
            let s = specification_of(c, path);
            &&& seq![s.program] + s.arguments == command_words(c, path)
            &&& s.uci_config_dir == (if has_environment(c) {
                Some(path)
            } else {
                None
            })
        }),
{
    let s = specification_of(c, path);
    assert(seq![s.program] + s.arguments =~= command_words(c, path));
}

/// The path that a command is staged at.
pub open spec fn path_of(c: FirewallCommandView) -> Option<Seq<char>> {
    match c {
        FirewallCommandView::UciShowFirewallAt { staging_dir } => Some(staging_dir),
        FirewallCommandView::UciShowNetworkAt { staging_dir } => Some(staging_dir),
        FirewallCommandView::UciExportNetworkAt { staging_dir } => Some(staging_dir),
        FirewallCommandView::UciShowWirelessAt { staging_dir } => Some(staging_dir),
        FirewallCommandView::UciExportWirelessAt { staging_dir } => Some(staging_dir),
        FirewallCommandView::UciBatch { staging_dir } => Some(staging_dir),
        FirewallCommandView::Fw3PrintIpv4 { staging_dir } => Some(staging_dir),
        FirewallCommandView::Fw3PrintIpv6 { staging_dir } => Some(staging_dir),
        FirewallCommandView::Fw4Check { staging_dir } => Some(staging_dir),
        FirewallCommandView::NftCheck { ruleset } => Some(ruleset),
        FirewallCommandView::NftLoad { ruleset } => Some(ruleset),
        FirewallCommandView::IpBatch { batch_file, continue_on_error } => Some(batch_file),
        _ => None,
    }
}

/// Whether what a command is staged at is a file.
pub open spec fn is_file_of(c: FirewallCommandView) -> bool {
    c is NftCheck || c is NftLoad || c is IpBatch
}

/// A staged command is run only on a path that is absolute and does not climb, that is no link, of the right kind and
/// not too large, and that lies below the runtime root. It is then run on the resolved path.
pub proof fn law_staged_commands_use_safe_paths(
    c: FirewallCommandView,
    facts: Option<PathFactsView>,
    max_input_bytes: nat,
)
    ensures
        path_of(c) is None ==> specified(c, facts, max_input_bytes) is Ok,
        path_of(c) matches Some(path) ==> (specified(c, facts, max_input_bytes) is Ok <==> {
            &&& facts is Some
            &&& facts->Some_0.metadata is Ok
            &&& !facts->Some_0.metadata->Ok_0.is_symlink
            &&& is_file_of(c) ==> facts->Some_0.metadata->Ok_0.is_file && facts->Some_0.metadata->Ok_0.length
                <= max_input_bytes
            &&& !is_file_of(c) ==> facts->Some_0.metadata->Ok_0.is_dir
            &&& is_plain(path)
            &&& facts->Some_0.root is Ok && facts->Some_0.resolved is Ok
            &&& is_within(facts->Some_0.resolved->Ok_0, facts->Some_0.root->Ok_0)
        }),
        path_of(c) is Some && specified(c, facts, max_input_bytes) is Ok ==> seq![
            specified(c, facts, max_input_bytes)->Ok_0.program,
        ] + specified(c, facts, max_input_bytes)->Ok_0.arguments == command_words(
            c,
            facts->Some_0.resolved->Ok_0,
        ),
{
    if path_of(c) is Some && specified(c, facts, max_input_bytes) is Ok {
        law_commands_have_fixed_words(c, facts->Some_0.resolved->Ok_0);
    }
}

/// A command is prepared only with valid limits, and with input exactly where it reads some, which is not too large.
/// Half of the room for output is for each stream, and the program is looked for in the runner's directories unless it
/// is given by its path.
pub proof fn law_command_is_prepared_within_its_limits(
    runner: FirewallCommandRunnerView,
    c: FirewallCommandView,
    facts: Option<PathFactsView>,
    stdin: Option<Seq<u8>>,
)
    ensures
        prepared(runner, c, facts, stdin) is Ok <==> {
            &&& runner.timeout_nanos > 0
            &&& runner.max_input_bytes > 0
            &&& runner.max_output_bytes >= 2
            &&& specified(c, facts, runner.max_input_bytes as nat) is Ok
            &&& stdin is Some <==> (c is UciBatch || c is IptablesRestoreTest || c is IptablesRestore)
            &&& stdin matches Some(b) ==> b.len() <= runner.max_input_bytes
        },
        prepared(runner, c, facts, stdin) matches Ok(p) ==> {
            &&& specified(c, facts, runner.max_input_bytes as nat) == Ok::<
                CommandSpecificationView,
                FirewallCommandErrorView,
            >(p.specification)
            &&& p.accepts_stdin <==> stdin is Some
            &&& 2 * p.stream_limit <= runner.max_output_bytes < 2 * p.stream_limit + 2
            &&& is_absolute(p.specification.program) ==> p.candidates == seq![p.specification.program]
            &&& !is_absolute(p.specification.program) ==> p.candidates.len() == runner.command_dirs.len() && forall|
                i: int,
            |
                0 <= i < p.candidates.len() ==> #[trigger] p.candidates[i] == path_join(
                    runner.command_dirs[i],
                    p.specification.program,
                )
        },
{
}

/// Whether a file may be run: it is a regular file that somebody may run.
pub open spec fn can_run(f: ExecutableFacts) -> bool {
    f.is_file && (f.mode & 0o100 != 0 || f.mode & 0o010 != 0 || f.mode & 0o001 != 0)
}

proof fn lemma_can_run(f: ExecutableFacts)
    ensures
        is_executable(f) == can_run(f),
{
    let m = f.mode;
    assert(m & 0o111 != 0 <==> m & 0o100 != 0 || m & 0o010 != 0 || m & 0o001 != 0) by (bit_vector);
}

proof fn lemma_first(candidates: Seq<Seq<char>>, found: Seq<ExecutableFacts>, i: int)
    requires
        0 <= i <= candidates.len(),
        candidates.len() == found.len(),
    ensures
        match first_executable(candidates, found, i) {
            Some(p) => exists|k: int|
                i <= k < found.len() && can_run(#[trigger] found[k]) && p == candidates[k] && forall|j: int|
                    i <= j < k ==> !can_run(#[trigger] found[j]),
            None => forall|k: int| i <= k < found.len() ==> !can_run(#[trigger] found[k]),
        },
    decreases candidates.len() - i,
{
    if i < candidates.len() {
        lemma_can_run(found[i]);
        if is_executable(found[i]) {
            assert(can_run(found[i]));
        } else {
            lemma_first(candidates, found, i + 1);
        }
    }
}

/// The program that is run is the first of the candidates that may be run, and there is none only where none may.
pub proof fn law_first_runnable_program_is_run(candidates: Seq<Seq<char>>, found: Seq<ExecutableFacts>)
    requires
        candidates.len() == found.len(),
    ensures
        match first_executable(candidates, found, 0) {
            Some(p) => exists|k: int|
                0 <= k < found.len() && can_run(#[trigger] found[k]) && p == candidates[k] && forall|j: int|
                    0 <= j < k ==> !can_run(#[trigger] found[j]),
            None => forall|k: int| 0 <= k < found.len() ==> !can_run(#[trigger] found[k]),
        },
{
    lemma_first(candidates, found, 0);
}

/// What a stream printed is kept up to its limit, and it is known whether there was more.
pub proof fn law_streams_are_kept_up_to_their_limit(bytes: Seq<u8>, limit: int)
    requires
        0 <= limit,
    ensures
        captured(bytes, limit).truncated <==> bytes.len() > limit,
        !captured(bytes, limit).truncated ==> captured(bytes, limit).bytes == bytes,
        captured(bytes, limit).truncated ==> captured(bytes, limit).bytes == bytes.take(limit),
{
    if bytes.len() <= limit {
        assert(captured(bytes, limit).bytes =~= bytes);
    } else {
        assert(captured(bytes, limit).bytes =~= bytes.take(limit));
    }
}

/// A command succeeds only where it ended well and all of its output was kept, which is then handed on.
pub proof fn law_success_needs_whole_output(
    stdout: CapturedView,
    stderr: CapturedView,
    success: bool,
    elapsed_millis: u128,
)
    ensures
        concluded(stdout, stderr, success, elapsed_millis) is Ok <==> success && !stdout.truncated
            && !stderr.truncated,
        stdout.truncated || stderr.truncated ==> concluded(stdout, stderr, success, elapsed_millis) == Err::<
            FirewallCommandOutputView,
            FirewallCommandErrorView,
        >(FirewallCommandErrorView::OutputCapacity),
        !stdout.truncated && !stderr.truncated && !success ==> concluded(stdout, stderr, success, elapsed_millis)
            == Err::<FirewallCommandOutputView, FirewallCommandErrorView>(FirewallCommandErrorView::Unsuccessful),
        concluded(stdout, stderr, success, elapsed_millis) matches Ok(o) ==> o.stdout == stdout.bytes && o.stderr
            == stderr.bytes && !o.truncated && (elapsed_millis <= u64::MAX ==> o.duration_ms == elapsed_millis) && (
        elapsed_millis > u64::MAX ==> o.duration_ms == u64::MAX),
{
}

} // verus!
