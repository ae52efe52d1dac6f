//! The closed set of native commands, and the rules that they run under.

use vstd::prelude::*;

use vstd::string::*;

use crate::digest::first_bytes;
use crate::items::{copy_list, copy_opt, same_list, same_opt, Item};
use crate::network_runtime::lemma_bytes;
use crate::path::{
    is_absolute, is_plain, is_within, join_path, path_join, plain_path, starts_at_root, within,
};
use crate::text::same;
use crate::views::{group_views, opt, views, vres};

verus! {

broadcast use group_views;

/// The closed set of native operations.
#[derive(Debug, Clone, PartialEq, Eq)]
pub enum FirewallCommand {
    UciShowFirewall,
    UciShowFirewallAt { staging_dir: String },
    UciShowNetwork,
    UciShowNetworkAt { staging_dir: String },
    UciExportNetworkAt { staging_dir: String },
    UciShowWireless,
    UciShowWirelessAt { staging_dir: String },
    UciExportWirelessAt { staging_dir: String },
    UciBatch { staging_dir: String },
    Fw3PrintIpv4 { staging_dir: String },
    Fw3PrintIpv6 { staging_dir: String },
    Fw4Check { staging_dir: String },
    OpenWrtFirewallReload,
    OpenWrtNetworkReload,
    OpenWrtWirelessReload,
    IpJsonLink,
    IpJsonAddress,
    IpJsonRoute,
    IpJsonRule,
    IpBatch { batch_file: String, continue_on_error: bool },
    NftListTables,
    NftListManagedTable,
    NftCheck { ruleset: String },
    NftLoad { ruleset: String },
    IptablesSave { ipv6: bool },
    IptablesRestoreTest { ipv6: bool },
    IptablesRestore { ipv6: bool },
}

#[verifier::ext_equal]
pub enum FirewallCommandView {
    UciShowFirewall,
    UciShowFirewallAt { staging_dir: Seq<char> },
    UciShowNetwork,
    UciShowNetworkAt { staging_dir: Seq<char> },
    UciExportNetworkAt { staging_dir: Seq<char> },
    UciShowWireless,
    UciShowWirelessAt { staging_dir: Seq<char> },
    UciExportWirelessAt { staging_dir: Seq<char> },
    UciBatch { staging_dir: Seq<char> },
    Fw3PrintIpv4 { staging_dir: Seq<char> },
    Fw3PrintIpv6 { staging_dir: Seq<char> },
    Fw4Check { staging_dir: Seq<char> },
    OpenWrtFirewallReload,
    OpenWrtNetworkReload,
    OpenWrtWirelessReload,
    IpJsonLink,
    IpJsonAddress,
    IpJsonRoute,
    IpJsonRule,
    IpBatch { batch_file: Seq<char>, continue_on_error: bool },
    NftListTables,
    NftListManagedTable,
    NftCheck { ruleset: Seq<char> },
    NftLoad { ruleset: Seq<char> },
    IptablesSave { ipv6: bool },
    IptablesRestoreTest { ipv6: bool },
    IptablesRestore { ipv6: bool },
}

impl View for FirewallCommand {
    type V = FirewallCommandView;

    open spec fn view(&self) -> FirewallCommandView {
        match self {
            FirewallCommand::UciShowFirewall => FirewallCommandView::UciShowFirewall,
            FirewallCommand::UciShowFirewallAt { staging_dir } =>
                FirewallCommandView::UciShowFirewallAt { staging_dir: staging_dir@ },
            FirewallCommand::UciShowNetwork => FirewallCommandView::UciShowNetwork,
            FirewallCommand::UciShowNetworkAt { staging_dir } =>
                FirewallCommandView::UciShowNetworkAt { staging_dir: staging_dir@ },
            FirewallCommand::UciExportNetworkAt { staging_dir } =>
                FirewallCommandView::UciExportNetworkAt { staging_dir: staging_dir@ },
            FirewallCommand::UciShowWireless => FirewallCommandView::UciShowWireless,
            FirewallCommand::UciShowWirelessAt { staging_dir } =>
                FirewallCommandView::UciShowWirelessAt { staging_dir: staging_dir@ },
            FirewallCommand::UciExportWirelessAt { staging_dir } =>
                FirewallCommandView::UciExportWirelessAt { staging_dir: staging_dir@ },
            FirewallCommand::UciBatch { staging_dir } =>
                FirewallCommandView::UciBatch { staging_dir: staging_dir@ },
            FirewallCommand::Fw3PrintIpv4 { staging_dir } =>
                FirewallCommandView::Fw3PrintIpv4 { staging_dir: staging_dir@ },
            FirewallCommand::Fw3PrintIpv6 { staging_dir } =>
                FirewallCommandView::Fw3PrintIpv6 { staging_dir: staging_dir@ },
            FirewallCommand::Fw4Check { staging_dir } =>
                FirewallCommandView::Fw4Check { staging_dir: staging_dir@ },
            FirewallCommand::OpenWrtFirewallReload => FirewallCommandView::OpenWrtFirewallReload,
            FirewallCommand::OpenWrtNetworkReload => FirewallCommandView::OpenWrtNetworkReload,
            FirewallCommand::OpenWrtWirelessReload => FirewallCommandView::OpenWrtWirelessReload,
            FirewallCommand::IpJsonLink => FirewallCommandView::IpJsonLink,
            FirewallCommand::IpJsonAddress => FirewallCommandView::IpJsonAddress,
            FirewallCommand::IpJsonRoute => FirewallCommandView::IpJsonRoute,
            FirewallCommand::IpJsonRule => FirewallCommandView::IpJsonRule,
            FirewallCommand::IpBatch { batch_file, continue_on_error } =>
                FirewallCommandView::IpBatch { batch_file: batch_file@, continue_on_error: *continue_on_error },
            FirewallCommand::NftListTables => FirewallCommandView::NftListTables,
            FirewallCommand::NftListManagedTable => FirewallCommandView::NftListManagedTable,
            FirewallCommand::NftCheck { ruleset } =>
                FirewallCommandView::NftCheck { ruleset: ruleset@ },
            FirewallCommand::NftLoad { ruleset } => FirewallCommandView::NftLoad { ruleset: ruleset@ },
            FirewallCommand::IptablesSave { ipv6 } => FirewallCommandView::IptablesSave { ipv6: *ipv6 },
            FirewallCommand::IptablesRestoreTest { ipv6 } =>
                FirewallCommandView::IptablesRestoreTest { ipv6: *ipv6 },
            FirewallCommand::IptablesRestore { ipv6 } =>
                FirewallCommandView::IptablesRestore { ipv6: *ipv6 },
        }
    }
}

/// Why a command was not run, or did not succeed.
#[derive(Debug, Clone, PartialEq, Eq)]
pub enum FirewallCommandError {
    InvalidLimits,
    Unavailable,
    UnexpectedInput,
    InputCapacity,
    OutputCapacity,
    UnsafePath,
    MissingPipe,
    TimedOut,
    Unsuccessful,
    ReaderPanicked,
    Io(String),
}

#[verifier::ext_equal]
pub enum FirewallCommandErrorView {
    InvalidLimits,
    Unavailable,
    UnexpectedInput,
    InputCapacity,
    OutputCapacity,
    UnsafePath,
    MissingPipe,
    TimedOut,
    Unsuccessful,
    ReaderPanicked,
    Io(Seq<char>),
}

impl View for FirewallCommandError {
    type V = FirewallCommandErrorView;

    open spec fn view(&self) -> FirewallCommandErrorView {
        match self {
            FirewallCommandError::InvalidLimits => FirewallCommandErrorView::InvalidLimits,
            FirewallCommandError::Unavailable => FirewallCommandErrorView::Unavailable,
            FirewallCommandError::UnexpectedInput => FirewallCommandErrorView::UnexpectedInput,
            FirewallCommandError::InputCapacity => FirewallCommandErrorView::InputCapacity,
            FirewallCommandError::OutputCapacity => FirewallCommandErrorView::OutputCapacity,
            FirewallCommandError::UnsafePath => FirewallCommandErrorView::UnsafePath,
            FirewallCommandError::MissingPipe => FirewallCommandErrorView::MissingPipe,
            FirewallCommandError::TimedOut => FirewallCommandErrorView::TimedOut,
            FirewallCommandError::Unsuccessful => FirewallCommandErrorView::Unsuccessful,
            FirewallCommandError::ReaderPanicked => FirewallCommandErrorView::ReaderPanicked,
            FirewallCommandError::Io(x) => FirewallCommandErrorView::Io(x@),
        }
    }
}

impl FirewallCommandErrorView {
    /// The text of the error.
    pub open spec fn message_text(self) -> Seq<char> {
        match self {
            FirewallCommandErrorView::InvalidLimits => "firewall command runner limits are invalid"@,
            FirewallCommandErrorView::Unavailable => "fixed firewall executable is unavailable"@,
            FirewallCommandErrorView::UnexpectedInput =>
                "firewall command input is missing or forbidden"@,
            FirewallCommandErrorView::InputCapacity => "firewall command input exceeds its capacity"@,
            FirewallCommandErrorView::OutputCapacity => "firewall command output exceeds its capacity"@,
            FirewallCommandErrorView::UnsafePath => "firewall command staging path is unsafe"@,
            FirewallCommandErrorView::MissingPipe => "firewall command pipe is unavailable"@,
            FirewallCommandErrorView::TimedOut => "firewall command timed out"@,
            FirewallCommandErrorView::Unsuccessful =>
                "firewall command returned an unsuccessful status"@,
            FirewallCommandErrorView::ReaderPanicked => "firewall command output reader failed"@,
            FirewallCommandErrorView::Io(x) => "firewall command I/O failed: "@ + x,
        }
    }
}

impl FirewallCommandError {
    /// The text of the error.
    pub fn message(&self) -> (r: String)
        ensures
            r@ == self@.message_text(),
    {
        match self {
            FirewallCommandError::InvalidLimits =>
                "firewall command runner limits are invalid".to_owned(),
            FirewallCommandError::Unavailable => "fixed firewall executable is unavailable".to_owned(),
            FirewallCommandError::UnexpectedInput =>
                "firewall command input is missing or forbidden".to_owned(),
            FirewallCommandError::InputCapacity =>
                "firewall command input exceeds its capacity".to_owned(),
            FirewallCommandError::OutputCapacity =>
                "firewall command output exceeds its capacity".to_owned(),
            FirewallCommandError::UnsafePath => "firewall command staging path is unsafe".to_owned(),
            FirewallCommandError::MissingPipe => "firewall command pipe is unavailable".to_owned(),
            FirewallCommandError::TimedOut => "firewall command timed out".to_owned(),
            FirewallCommandError::Unsuccessful =>
                "firewall command returned an unsuccessful status".to_owned(),
            FirewallCommandError::ReaderPanicked => "firewall command output reader failed".to_owned(),
            FirewallCommandError::Io(x) => {
                let mut r = "firewall command I/O failed: ".to_owned();
                r.append(x.as_str());
                r
            },
        }
    }
}

/// The bounded result of a process. It only informs, and is never read as an authorization.
#[derive(Debug, Clone, PartialEq, Eq)]
pub struct FirewallCommandOutput {
    pub stdout: Vec<u8>,
    pub stderr: Vec<u8>,
    pub truncated: bool,
    pub duration_ms: u64,
}

#[verifier::ext_equal]
pub struct FirewallCommandOutputView {
    pub stdout: Seq<u8>,
    pub stderr: Seq<u8>,
    pub truncated: bool,
    pub duration_ms: u64,
}

impl View for FirewallCommandOutput {
    type V = FirewallCommandOutputView;

    open spec fn view(&self) -> FirewallCommandOutputView {
        FirewallCommandOutputView {
            stdout: views(self.stdout@),
            stderr: views(self.stderr@),
            truncated: self.truncated,
            duration_ms: self.duration_ms,
        }
    }
}

impl Item for FirewallCommandOutput {
    fn alike(&self, other: &Self) -> (r: bool) {
        same_list(&self.stdout, &other.stdout)
            && same_list(&self.stderr, &other.stderr)
            && self.truncated == other.truncated
            && self.duration_ms == other.duration_ms
    }

    fn twin(&self) -> (r: Self) {
        FirewallCommandOutput {
            stdout: copy_list(&self.stdout),
            stderr: copy_list(&self.stderr),
            truncated: self.truncated,
            duration_ms: self.duration_ms,
        }
    }
}

/// The program, the arguments and the configuration directory of an operation.
#[derive(Debug, Clone, PartialEq, Eq)]
pub struct CommandSpecification {
    pub program: &'static str,
    pub arguments: Vec<String>,
    pub uci_config_dir: Option<String>,
}

#[verifier::ext_equal]
pub struct CommandSpecificationView {
    pub program: Seq<char>,
    pub arguments: Seq<Seq<char>>,
    pub uci_config_dir: Option<Seq<char>>,
}

impl View for CommandSpecification {
    type V = CommandSpecificationView;

    open spec fn view(&self) -> CommandSpecificationView {
        CommandSpecificationView {
            program: self.program@,
            arguments: views(self.arguments@),
            uci_config_dir: opt(self.uci_config_dir),
        }
    }
}

impl Item for CommandSpecification {
    fn alike(&self, other: &Self) -> (r: bool) {
        same(self.program, other.program)
            && same_list(&self.arguments, &other.arguments)
            && same_opt(&self.uci_config_dir, &other.uci_config_dir)
    }

    fn twin(&self) -> (r: Self) {
        CommandSpecification {
            program: self.program,
            arguments: copy_list(&self.arguments),
            uci_config_dir: copy_opt(&self.uci_config_dir),
        }
    }
}

/// What commands may use: where their files lie, where executables are looked up, and the limits.
#[derive(Debug, Clone, PartialEq, Eq)]
pub struct FirewallCommandRunner {
    pub runtime_root: String,
    pub command_dirs: Vec<String>,
    pub timeout_nanos: u128,
    pub max_input_bytes: usize,
    pub max_output_bytes: usize,
}

#[verifier::ext_equal]
pub struct FirewallCommandRunnerView {
    pub runtime_root: Seq<char>,
    pub command_dirs: Seq<Seq<char>>,
    pub timeout_nanos: u128,
    pub max_input_bytes: usize,
    pub max_output_bytes: usize,
}

impl View for FirewallCommandRunner {
    type V = FirewallCommandRunnerView;

    open spec fn view(&self) -> FirewallCommandRunnerView {
        FirewallCommandRunnerView {
            runtime_root: self.runtime_root@,
            command_dirs: views(self.command_dirs@),
            timeout_nanos: self.timeout_nanos,
            max_input_bytes: self.max_input_bytes,
            max_output_bytes: self.max_output_bytes,
        }
    }
}

impl Item for FirewallCommandRunner {
    fn alike(&self, other: &Self) -> (r: bool) {
        same(self.runtime_root.as_str(), other.runtime_root.as_str())
            && same_list(&self.command_dirs, &other.command_dirs)
            && self.timeout_nanos == other.timeout_nanos
            && self.max_input_bytes == other.max_input_bytes
            && self.max_output_bytes == other.max_output_bytes
    }

    fn twin(&self) -> (r: Self) {
        FirewallCommandRunner {
            runtime_root: self.runtime_root.clone(),
            command_dirs: copy_list(&self.command_dirs),
            timeout_nanos: self.timeout_nanos,
            max_input_bytes: self.max_input_bytes,
            max_output_bytes: self.max_output_bytes,
        }
    }
}

/// A command that is ready to run, with the paths that its executable may have.
#[derive(Debug, Clone, PartialEq, Eq)]
pub struct PreparedCommand {
    pub specification: CommandSpecification,
    pub candidates: Vec<String>,
    pub accepts_stdin: bool,
    pub stream_limit: usize,
}

#[verifier::ext_equal]
pub struct PreparedCommandView {
    pub specification: CommandSpecificationView,
    pub candidates: Seq<Seq<char>>,
    pub accepts_stdin: bool,
    pub stream_limit: usize,
}

impl View for PreparedCommand {
    type V = PreparedCommandView;

    open spec fn view(&self) -> PreparedCommandView {
        PreparedCommandView {
            specification: self.specification@,
            candidates: views(self.candidates@),
            accepts_stdin: self.accepts_stdin,
            stream_limit: self.stream_limit,
        }
    }
}

impl Item for PreparedCommand {
    fn alike(&self, other: &Self) -> (r: bool) {
        self.specification.alike(&other.specification)
            && same_list(&self.candidates, &other.candidates)
            && self.accepts_stdin == other.accepts_stdin
            && self.stream_limit == other.stream_limit
    }

    fn twin(&self) -> (r: Self) {
        PreparedCommand {
            specification: self.specification.twin(),
            candidates: copy_list(&self.candidates),
            accepts_stdin: self.accepts_stdin,
            stream_limit: self.stream_limit,
        }
    }
}

/// What a candidate for an executable was found to be.
#[derive(Debug, Clone, Copy, PartialEq, Eq, Structural)]
pub struct ExecutableFacts {
    pub is_file: bool,
    pub mode: u32,
}

impl View for ExecutableFacts {
    type V = ExecutableFacts;

    open spec fn view(&self) -> ExecutableFacts {
        *self
    }
}

impl Item for ExecutableFacts {
    fn alike(&self, other: &Self) -> (r: bool) {
        *self == *other
    }

    fn twin(&self) -> (r: Self) {
        *self
    }
}

/// What was kept of a stream.
#[derive(Debug, Clone, PartialEq, Eq)]
pub struct Captured {
    pub bytes: Vec<u8>,
    pub truncated: bool,
}

#[verifier::ext_equal]
pub struct CapturedView {
    pub bytes: Seq<u8>,
    pub truncated: bool,
}

impl View for Captured {
    type V = CapturedView;

    open spec fn view(&self) -> CapturedView {
        CapturedView {
            bytes: views(self.bytes@),
            truncated: self.truncated,
        }
    }
}

impl Item for Captured {
    fn alike(&self, other: &Self) -> (r: bool) {
        same_list(&self.bytes, &other.bytes)
            && self.truncated == other.truncated
    }

    fn twin(&self) -> (r: Self) {
        Captured {
            bytes: copy_list(&self.bytes),
            truncated: self.truncated,
        }
    }
}

/// What to do with a child process.
#[derive(Debug, Clone, Copy, PartialEq, Eq, Structural)]
pub enum Watch {
    Exited,
    Kill,
    Wait,
}

impl View for Watch {
    type V = Watch;

    open spec fn view(&self) -> Watch {
        *self
    }
}

impl Item for Watch {
    fn alike(&self, other: &Self) -> (r: bool) {
        *self == *other
    }

    fn twin(&self) -> (r: Self) {
        *self
    }
}

/// What a path was found to be: its own kind, not that of what a link leads to.
#[derive(Debug, Clone, Copy, PartialEq, Eq)]
pub struct PathMetadata {
    pub is_dir: bool,
    pub is_file: bool,
    pub is_symlink: bool,
    pub length: u64,
}

/// What was found out about a staging path. A text stands for the failure to find something out.
#[derive(Debug, PartialEq, Eq)]
pub struct PathFacts {
    /// What the path itself is.
    pub metadata: Result<PathMetadata, String>,
    /// The runtime directory with every link resolved.
    pub root: Result<String, String>,
    /// The path with every link resolved.
    pub resolved: Result<String, String>,
}

#[verifier::ext_equal]
pub struct PathFactsView {
    pub metadata: Result<PathMetadata, Seq<char>>,
    pub root: Result<Seq<char>, Seq<char>>,
    pub resolved: Result<Seq<char>, Seq<char>>,
}

impl View for PathMetadata {
    type V = PathMetadata;

    open spec fn view(&self) -> PathMetadata {
        *self
    }
}

impl View for PathFacts {
    type V = PathFactsView;

    open spec fn view(&self) -> PathFactsView {
        PathFactsView {
            metadata: vres(self.metadata),
            root: vres(self.root),
            resolved: vres(self.resolved),
        }
    }
}

/// Minimal command capability that typed native transactions use.
pub trait FirewallCommandExecutor {
    /// Executes one closed operation.
    fn execute(&self, operation: &FirewallCommand, stdin: Option<&[u8]>) -> Result<
        FirewallCommandOutput,
        FirewallCommandError,
    >;
}

/// The directories that executables are looked up in, in this order.
pub open spec fn system_dirs() -> Seq<Seq<char>> {
    seq!["/usr/sbin"@, "/usr/bin"@, "/sbin"@, "/bin"@]
}

/// Copies literals into a list.
fn texts(list: &[&str]) -> (r: Vec<String>)
    ensures
        views(r@) == views(list@),
{
    let ghost all = views(list@);
    let mut r: Vec<String> = Vec::new();
    let mut i: usize = 0;
    while i < list.len()
        invariant
            i <= list@.len(),
            all == views(list@),
            views(r@) =~= all.take(i as int),
        decreases list@.len() - i,
    {
        assert(all[i as int] == list@[i as int]@);
        r.push(list[i].to_owned());
        i = i + 1;
    }
    assert(all.take(i as int) =~= all);
    r
}

/// The program, arguments and environment of an operation that needs no path.
pub open spec fn plain_spec(program: Seq<char>, arguments: Seq<Seq<char>>) -> CommandSpecificationView {
    CommandSpecificationView { program, arguments, uci_config_dir: None }
}

/// The path that an operation works on, and whether it has to be a file rather than a directory.
pub open spec fn staged_path(operation: FirewallCommandView) -> Option<(Seq<char>, bool)> {
    match operation {
        FirewallCommandView::UciShowFirewallAt { staging_dir } => Some((staging_dir, false)),
        FirewallCommandView::UciShowNetworkAt { staging_dir } => Some((staging_dir, false)),
        FirewallCommandView::UciExportNetworkAt { staging_dir } => Some((staging_dir, false)),
        FirewallCommandView::UciShowWirelessAt { staging_dir } => Some((staging_dir, false)),
        FirewallCommandView::UciExportWirelessAt { staging_dir } => Some((staging_dir, false)),
        FirewallCommandView::UciBatch { staging_dir } => Some((staging_dir, false)),
        FirewallCommandView::Fw3PrintIpv4 { staging_dir } => Some((staging_dir, false)),
        FirewallCommandView::Fw3PrintIpv6 { staging_dir } => Some((staging_dir, false)),
        FirewallCommandView::Fw4Check { staging_dir } => Some((staging_dir, false)),
        FirewallCommandView::NftCheck { ruleset } => Some((ruleset, true)),
        FirewallCommandView::NftLoad { ruleset } => Some((ruleset, true)),
        FirewallCommandView::IpBatch { batch_file, continue_on_error } => Some((batch_file, true)),
        _ => None,
    }
}

/// The arguments that run an action on a package below a configuration directory.
pub open spec fn uci_at(dir: Seq<char>, action: Seq<char>, package: Seq<char>) -> Seq<Seq<char>> {
    seq!["-c"@, dir, "-q"@, action, package]
}

pub open spec fn tool(v6: bool, six: Seq<char>, four: Seq<char>) -> Seq<char> {
    if v6 {
        six
    } else {
        four
    }
}

/// What an operation runs, given the resolved path that it works on, where it works on one.
pub open spec fn specification_of(operation: FirewallCommandView, path: Seq<char>) -> CommandSpecificationView {
    match operation {
        FirewallCommandView::UciShowFirewall => plain_spec(
            "uci"@,
            seq!["-q"@, "show"@, "firewall"@],
        ),
        FirewallCommandView::UciShowNetwork => plain_spec(
            "uci"@,
            seq!["-q"@, "show"@, "network"@],
        ),
        FirewallCommandView::UciShowWireless => plain_spec(
            "uci"@,
            seq!["-q"@, "show"@, "wireless"@],
        ),
        FirewallCommandView::UciShowFirewallAt { .. } => plain_spec(
            "uci"@,
            uci_at(path, "show"@, "firewall"@),
        ),
        FirewallCommandView::UciShowNetworkAt { .. } => plain_spec(
            "uci"@,
            uci_at(path, "show"@, "network"@),
        ),
        FirewallCommandView::UciExportNetworkAt { .. } => plain_spec(
            "uci"@,
            uci_at(path, "export"@, "network"@),
        ),
        FirewallCommandView::UciShowWirelessAt { .. } => plain_spec(
            "uci"@,
            uci_at(path, "show"@, "wireless"@),
        ),
        FirewallCommandView::UciExportWirelessAt { .. } => plain_spec(
            "uci"@,
            uci_at(path, "export"@, "wireless"@),
        ),
        FirewallCommandView::UciBatch { .. } => plain_spec("uci"@, seq!["-c"@, path, "batch"@]),
        FirewallCommandView::Fw3PrintIpv4 { .. } => CommandSpecificationView {
            program: "fw3"@,
            arguments: seq!["-4"@, "-q"@, "print"@],
            uci_config_dir: Some(path),
        },
        FirewallCommandView::Fw3PrintIpv6 { .. } => CommandSpecificationView {
            program: "fw3"@,
            arguments: seq!["-6"@, "-q"@, "print"@],
            uci_config_dir: Some(path),
        },
        FirewallCommandView::Fw4Check { .. } => CommandSpecificationView {
            program: "fw4"@,
            arguments: seq!["-q"@, "check"@],
            uci_config_dir: Some(path),
        },
        FirewallCommandView::OpenWrtFirewallReload => plain_spec(
            "/etc/init.d/firewall"@,
            seq!["reload"@],
        ),
        FirewallCommandView::OpenWrtNetworkReload => plain_spec(
            "/etc/init.d/network"@,
            seq!["reload"@],
        ),
        FirewallCommandView::OpenWrtWirelessReload => plain_spec("/sbin/wifi"@, seq!["reload"@]),
        FirewallCommandView::IpJsonLink => plain_spec("ip"@, seq!["-j"@, "link"@, "show"@]),
        FirewallCommandView::IpJsonAddress => plain_spec("ip"@, seq!["-j"@, "address"@, "show"@]),
        FirewallCommandView::IpJsonRoute => plain_spec(
            "ip"@,
            seq!["-j"@, "route"@, "show"@, "table"@, "all"@],
        ),
        FirewallCommandView::IpJsonRule => plain_spec("ip"@, seq!["-j"@, "rule"@, "show"@]),
        FirewallCommandView::IpBatch { batch_file, continue_on_error } => plain_spec(
            "ip"@,
            if continue_on_error {
                seq!["-force"@, "-batch"@, path]
            } else {
                seq!["-batch"@, path]
            },
        ),
        FirewallCommandView::NftListTables => plain_spec("nft"@, seq!["list"@, "tables"@]),
        FirewallCommandView::NftListManagedTable => plain_spec(
            "nft"@,
            seq!["list"@, "table"@, "inet"@, "mbed_agent"@],
        ),
        FirewallCommandView::NftCheck { .. } => plain_spec(
            "nft"@,
            seq!["--check"@, "--file"@, path],
        ),
        FirewallCommandView::NftLoad { .. } => plain_spec("nft"@, seq!["--file"@, path]),
        FirewallCommandView::IptablesSave { ipv6 } => plain_spec(
            tool(ipv6, "ip6tables-save"@, "iptables-save"@),
            Seq::empty(),
        ),
        FirewallCommandView::IptablesRestoreTest { ipv6 } => plain_spec(
            tool(ipv6, "ip6tables-restore"@, "iptables-restore"@),
            seq!["--test"@, "--noflush"@],
        ),
        FirewallCommandView::IptablesRestore { ipv6 } => plain_spec(
            tool(ipv6, "ip6tables-restore"@, "iptables-restore"@),
            seq!["--noflush"@],
        ),
    }
}

/// Whether an operation reads an input.
pub open spec fn takes_input(operation: FirewallCommandView) -> bool {
    operation is UciBatch || operation is IptablesRestoreTest || operation is IptablesRestore
}

/// The path that an operation may work on: of the right kind, bounded where it is a file, without
/// links or climbing, and below the runtime directory once every link is resolved.
pub open spec fn safe_path(path: Seq<char>, file: bool, facts: PathFactsView, max_input_bytes: nat) -> Result<
    Seq<char>,
    FirewallCommandErrorView,
> {
    match facts.metadata {
        Err(e) => Err(FirewallCommandErrorView::Io(e)),
        Ok(m) => if m.is_symlink || (if file {
            !m.is_file || m.length > max_input_bytes
        } else {
            !m.is_dir
        }) || !is_plain(path) {
            Err(FirewallCommandErrorView::UnsafePath)
        } else {
            match (facts.root, facts.resolved) {
                (Err(e), _) => Err(FirewallCommandErrorView::Io(e)),
                (_, Err(e)) => Err(FirewallCommandErrorView::Io(e)),
                (Ok(root), Ok(resolved)) => if is_within(resolved, root) {
                    Ok(resolved)
                } else {
                    Err(FirewallCommandErrorView::UnsafePath)
                },
            }
        },
    }
}

/// What an operation runs, given what was found out about its path.
pub open spec fn specified(
    operation: FirewallCommandView,
    facts: Option<PathFactsView>,
    max_input_bytes: nat,
) -> Result<CommandSpecificationView, FirewallCommandErrorView> {
    match staged_path(operation) {
        None => Ok(specification_of(operation, Seq::empty())),
        Some((path, file)) => match facts {
            None => Err(FirewallCommandErrorView::UnsafePath),
            Some(f) => match safe_path(path, file, f, max_input_bytes) {
                Err(e) => Err(e),
                Ok(resolved) => Ok(specification_of(operation, resolved)),
            },
        },
    }
}

/// The view of an optional reference to facts.
pub open spec fn facts_view(o: Option<&PathFacts>) -> Option<PathFactsView> {
    match o {
        Some(f) => Some(f@),
        None => None,
    }
}

/// The view of an optional slice of bytes.
pub open spec fn bytes_view(o: Option<&[u8]>) -> Option<Seq<u8>> {
    match o {
        Some(b) => Some(b@),
        None => None,
    }
}

impl FirewallCommand {
    /// The path that has to be looked at before the operation can run, and whether it has to be a file.
    pub fn staging_path(&self) -> (r: Option<(&str, bool)>)
        ensures
            match r {
                Some((p, f)) => staged_path(self@) == Some((p@, f)),
                None => staged_path(self@) is None,
            },
    {
        match self {
            FirewallCommand::UciShowFirewallAt { staging_dir } => Some((staging_dir.as_str(), false)),
            FirewallCommand::UciShowNetworkAt { staging_dir } => Some((staging_dir.as_str(), false)),
            FirewallCommand::UciExportNetworkAt { staging_dir } => Some((staging_dir.as_str(), false)),
            FirewallCommand::UciShowWirelessAt { staging_dir } => Some((staging_dir.as_str(), false)),
            FirewallCommand::UciExportWirelessAt { staging_dir } => Some(
                (staging_dir.as_str(), false),
            ),
            FirewallCommand::UciBatch { staging_dir } => Some((staging_dir.as_str(), false)),
            FirewallCommand::Fw3PrintIpv4 { staging_dir } => Some((staging_dir.as_str(), false)),
            FirewallCommand::Fw3PrintIpv6 { staging_dir } => Some((staging_dir.as_str(), false)),
            FirewallCommand::Fw4Check { staging_dir } => Some((staging_dir.as_str(), false)),
            FirewallCommand::NftCheck { ruleset } => Some((ruleset.as_str(), true)),
            FirewallCommand::NftLoad { ruleset } => Some((ruleset.as_str(), true)),
            FirewallCommand::IpBatch { batch_file, continue_on_error: _ } => Some(
                (batch_file.as_str(), true),
            ),
            _ => None,
        }
    }

    /// Whether the operation reads an input.
    pub fn accepts_stdin(&self) -> (r: bool)
        ensures
            r == takes_input(self@),
    {
        match self {
            FirewallCommand::UciBatch { staging_dir: _ } => true,
            FirewallCommand::IptablesRestoreTest { ipv6: _ } => true,
            FirewallCommand::IptablesRestore { ipv6: _ } => true,
            _ => false,
        }
    }

    /// The twin of an operation.
    pub fn twin(&self) -> (r: FirewallCommand)
        ensures
            r@ == self@,
    {
        match self {
            FirewallCommand::UciShowFirewall => FirewallCommand::UciShowFirewall,
            FirewallCommand::UciShowFirewallAt { staging_dir } => FirewallCommand::UciShowFirewallAt {
                staging_dir: staging_dir.clone(),
            },
            FirewallCommand::UciShowNetwork => FirewallCommand::UciShowNetwork,
            FirewallCommand::UciShowNetworkAt { staging_dir } => FirewallCommand::UciShowNetworkAt {
                staging_dir: staging_dir.clone(),
            },
            FirewallCommand::UciExportNetworkAt { staging_dir } => FirewallCommand::UciExportNetworkAt {
                staging_dir: staging_dir.clone(),
            },
            FirewallCommand::UciShowWireless => FirewallCommand::UciShowWireless,
            FirewallCommand::UciShowWirelessAt { staging_dir } => FirewallCommand::UciShowWirelessAt {
                staging_dir: staging_dir.clone(),
            },
            FirewallCommand::UciExportWirelessAt { staging_dir } => FirewallCommand::UciExportWirelessAt {
                staging_dir: staging_dir.clone(),
            },
            FirewallCommand::UciBatch { staging_dir } => FirewallCommand::UciBatch {
                staging_dir: staging_dir.clone(),
            },
            FirewallCommand::Fw3PrintIpv4 { staging_dir } => FirewallCommand::Fw3PrintIpv4 {
                staging_dir: staging_dir.clone(),
            },
            FirewallCommand::Fw3PrintIpv6 { staging_dir } => FirewallCommand::Fw3PrintIpv6 {
                staging_dir: staging_dir.clone(),
            },
            FirewallCommand::Fw4Check { staging_dir } => FirewallCommand::Fw4Check {
                staging_dir: staging_dir.clone(),
            },
            FirewallCommand::OpenWrtFirewallReload => FirewallCommand::OpenWrtFirewallReload,
            FirewallCommand::OpenWrtNetworkReload => FirewallCommand::OpenWrtNetworkReload,
            FirewallCommand::OpenWrtWirelessReload => FirewallCommand::OpenWrtWirelessReload,
            FirewallCommand::IpJsonLink => FirewallCommand::IpJsonLink,
            FirewallCommand::IpJsonAddress => FirewallCommand::IpJsonAddress,
            FirewallCommand::IpJsonRoute => FirewallCommand::IpJsonRoute,
            FirewallCommand::IpJsonRule => FirewallCommand::IpJsonRule,
            FirewallCommand::IpBatch { batch_file, continue_on_error } => FirewallCommand::IpBatch {
                batch_file: batch_file.clone(),
                continue_on_error: *continue_on_error,
            },
            FirewallCommand::NftListTables => FirewallCommand::NftListTables,
            FirewallCommand::NftListManagedTable => FirewallCommand::NftListManagedTable,
            FirewallCommand::NftCheck { ruleset } => FirewallCommand::NftCheck {
                ruleset: ruleset.clone(),
            },
            FirewallCommand::NftLoad { ruleset } => FirewallCommand::NftLoad {
                ruleset: ruleset.clone(),
            },
            FirewallCommand::IptablesSave { ipv6 } => FirewallCommand::IptablesSave {
                ipv6: *ipv6,
            },
            FirewallCommand::IptablesRestoreTest { ipv6 } => FirewallCommand::IptablesRestoreTest {
                ipv6: *ipv6,
            },
            FirewallCommand::IptablesRestore { ipv6 } => FirewallCommand::IptablesRestore {
                ipv6: *ipv6,
            },
        }
    }
}

fn spec(program: &'static str, arguments: &[&str]) -> (r: CommandSpecification)
    ensures
        r@ == plain_spec(program@, views(arguments@)),
{
    CommandSpecification { program, arguments: texts(arguments), uci_config_dir: None }
}

fn spec_with_uci(program: &'static str, arguments: &[&str], dir: &str) -> (r: CommandSpecification)
    ensures
        r@ == (CommandSpecificationView {
            program: program@,
            arguments: views(arguments@),
            uci_config_dir: Some(dir@),
        }),
{
    CommandSpecification {
        program,
        arguments: texts(arguments),
        uci_config_dir: Some(dir.to_owned()),
    }
}

fn uci_spec(dir: &str, action: &str, package: &str) -> (r: CommandSpecification)
    ensures
        r@ == plain_spec("uci"@, uci_at(dir@, action@, package@)),
{
    let list = ["-c", dir, "-q", action, package];
    assert(views(list@) =~= uci_at(dir@, action@, package@));
    spec("uci", &list)
}

fn network_specification(operation: &FirewallCommand, path: &str) -> (r: Option<CommandSpecification>)
    ensures
        match r {
            Some(s) => s@ == specification_of(operation@, path@),
            None => !(operation@ is UciShowNetwork || operation@ is UciShowNetworkAt
                || operation@ is UciExportNetworkAt || operation@ is OpenWrtNetworkReload
                || operation@ is UciShowWireless || operation@ is UciShowWirelessAt
                || operation@ is UciExportWirelessAt || operation@ is OpenWrtWirelessReload),
        },
{
    match operation {
        FirewallCommand::UciShowNetwork => {
            let list = ["-q", "show", "network"];
            assert(views(list@) =~= seq!["-q"@, "show"@, "network"@]);
            Some(spec("uci", &list))
        },
        FirewallCommand::UciShowWireless => {
            let list = ["-q", "show", "wireless"];
            assert(views(list@) =~= seq!["-q"@, "show"@, "wireless"@]);
            Some(spec("uci", &list))
        },
        FirewallCommand::UciShowNetworkAt { staging_dir: _ } => Some(
            uci_spec(path, "show", "network"),
        ),
        FirewallCommand::UciExportNetworkAt { staging_dir: _ } => Some(
            uci_spec(path, "export", "network"),
        ),
        FirewallCommand::UciShowWirelessAt { staging_dir: _ } => Some(
            uci_spec(path, "show", "wireless"),
        ),
        FirewallCommand::UciExportWirelessAt { staging_dir: _ } => Some(
            uci_spec(path, "export", "wireless"),
        ),
        FirewallCommand::OpenWrtNetworkReload => {
            let list = ["reload"];
            assert(views(list@) =~= seq!["reload"@]);
            Some(spec("/etc/init.d/network", &list))
        },
        FirewallCommand::OpenWrtWirelessReload => {
            let list = ["reload"];
            assert(views(list@) =~= seq!["reload"@]);
            Some(spec("/sbin/wifi", &list))
        },
        _ => None,
    }
}

fn ip_specification(operation: &FirewallCommand, path: &str) -> (r: Option<CommandSpecification>)
    ensures
        match r {
            Some(s) => s@ == specification_of(operation@, path@),
            None => !(operation@ is IpJsonLink || operation@ is IpJsonAddress || operation@ is IpJsonRoute
                || operation@ is IpJsonRule || operation@ is IpBatch),
        },
{
    match operation {
        FirewallCommand::IpJsonLink => {
            let list = ["-j", "link", "show"];
            assert(views(list@) =~= seq!["-j"@, "link"@, "show"@]);
            Some(spec("ip", &list))
        },
        FirewallCommand::IpJsonAddress => {
            let list = ["-j", "address", "show"];
            assert(views(list@) =~= seq!["-j"@, "address"@, "show"@]);
            Some(spec("ip", &list))
        },
        FirewallCommand::IpJsonRoute => {
            let list = ["-j", "route", "show", "table", "all"];
            assert(views(list@) =~= seq!["-j"@, "route"@, "show"@, "table"@, "all"@]);
            Some(spec("ip", &list))
        },
        FirewallCommand::IpJsonRule => {
            let list = ["-j", "rule", "show"];
            assert(views(list@) =~= seq!["-j"@, "rule"@, "show"@]);
            Some(spec("ip", &list))
        },
        FirewallCommand::IpBatch { batch_file: _, continue_on_error } => {
            if *continue_on_error {
                let list = ["-force", "-batch", path];
                assert(views(list@) =~= seq!["-force"@, "-batch"@, path@]);
                Some(spec("ip", &list))
            } else {
                let list = ["-batch", path];
                assert(views(list@) =~= seq!["-batch"@, path@]);
                Some(spec("ip", &list))
            }
        },
        _ => None,
    }
}

fn firewall_specification(operation: &FirewallCommand, path: &str) -> (r: Option<
    CommandSpecification,
>)
    ensures
        match r {
            Some(s) => s@ == specification_of(operation@, path@),
            None => !(operation@ is UciShowFirewall || operation@ is UciShowFirewallAt
                || operation@ is UciBatch || operation@ is Fw3PrintIpv4 || operation@ is Fw3PrintIpv6
                || operation@ is Fw4Check || operation@ is OpenWrtFirewallReload),
        },
{
    match operation {
        FirewallCommand::UciShowFirewall => {
            let list = ["-q", "show", "firewall"];
            assert(views(list@) =~= seq!["-q"@, "show"@, "firewall"@]);
            Some(spec("uci", &list))
        },
        FirewallCommand::UciShowFirewallAt { staging_dir: _ } => Some(
            uci_spec(path, "show", "firewall"),
        ),
        FirewallCommand::UciBatch { staging_dir: _ } => {
            let list = ["-c", path, "batch"];
            assert(views(list@) =~= seq!["-c"@, path@, "batch"@]);
            Some(spec("uci", &list))
        },
        FirewallCommand::Fw3PrintIpv4 { staging_dir: _ } => {
            let list = ["-4", "-q", "print"];
            assert(views(list@) =~= seq!["-4"@, "-q"@, "print"@]);
            Some(spec_with_uci("fw3", &list, path))
        },
        FirewallCommand::Fw3PrintIpv6 { staging_dir: _ } => {
            let list = ["-6", "-q", "print"];
            assert(views(list@) =~= seq!["-6"@, "-q"@, "print"@]);
            Some(spec_with_uci("fw3", &list, path))
        },
        FirewallCommand::Fw4Check { staging_dir: _ } => {
            let list = ["-q", "check"];
            assert(views(list@) =~= seq!["-q"@, "check"@]);
            Some(spec_with_uci("fw4", &list, path))
        },
        FirewallCommand::OpenWrtFirewallReload => {
            let list = ["reload"];
            assert(views(list@) =~= seq!["reload"@]);
            Some(spec("/etc/init.d/firewall", &list))
        },
        _ => None,
    }
}

fn native_specification(operation: &FirewallCommand, path: &str) -> (r: Option<CommandSpecification>)
    ensures
        match r {
            Some(s) => s@ == specification_of(operation@, path@),
            None => !(operation@ is NftListTables || operation@ is NftListManagedTable
                || operation@ is NftCheck || operation@ is NftLoad || operation@ is IptablesSave
                || operation@ is IptablesRestoreTest || operation@ is IptablesRestore),
        },
{
    match operation {
        FirewallCommand::NftListTables => {
            let list = ["list", "tables"];
            assert(views(list@) =~= seq!["list"@, "tables"@]);
            Some(spec("nft", &list))
        },
        FirewallCommand::NftListManagedTable => {
            let list = ["list", "table", "inet", "mbed_agent"];
            assert(views(list@) =~= seq!["list"@, "table"@, "inet"@, "mbed_agent"@]);
            Some(spec("nft", &list))
        },
        FirewallCommand::NftCheck { ruleset: _ } => {
            let list = ["--check", "--file", path];
            assert(views(list@) =~= seq!["--check"@, "--file"@, path@]);
            Some(spec("nft", &list))
        },
        FirewallCommand::NftLoad { ruleset: _ } => {
            let list = ["--file", path];
            assert(views(list@) =~= seq!["--file"@, path@]);
            Some(spec("nft", &list))
        },
        FirewallCommand::IptablesSave { ipv6 } => {
            let program = if *ipv6 {
                "ip6tables-save"
            } else {
                "iptables-save"
            };
            let list: [&str; 0] = [];
            assert(views(list@) =~= Seq::<Seq<char>>::empty());
            Some(spec(program, &list))
        },
        FirewallCommand::IptablesRestoreTest { ipv6 } => {
            let program = if *ipv6 {
                "ip6tables-restore"
            } else {
                "iptables-restore"
            };
            let list = ["--test", "--noflush"];
            assert(views(list@) =~= seq!["--test"@, "--noflush"@]);
            Some(spec(program, &list))
        },
        FirewallCommand::IptablesRestore { ipv6 } => {
            let program = if *ipv6 {
                "ip6tables-restore"
            } else {
                "iptables-restore"
            };
            let list = ["--noflush"];
            assert(views(list@) =~= seq!["--noflush"@]);
            Some(spec(program, &list))
        },
        _ => None,
    }
}

/// Whether the limits of a runner leave it anything to do.
pub open spec fn has_limits(runner: FirewallCommandRunnerView) -> bool {
    runner.timeout_nanos > 0 && runner.max_input_bytes > 0 && runner.max_output_bytes >= 2
}

/// The paths that the executable of a program may have, in the order they are tried. The few
/// programs that are given by their full path have that one.
pub open spec fn program_paths(dirs: Seq<Seq<char>>, program: Seq<char>) -> Seq<Seq<char>> {
    if is_absolute(program) {
        seq![program]
    } else {
        Seq::new(dirs.len(), |i: int| path_join(dirs[i], program))
    }
}

/// The command that a runner makes ready for an operation.
pub open spec fn prepared(
    runner: FirewallCommandRunnerView,
    operation: FirewallCommandView,
    facts: Option<PathFactsView>,
    stdin: Option<Seq<u8>>,
) -> Result<PreparedCommandView, FirewallCommandErrorView> {
    if !has_limits(runner) {
        Err(FirewallCommandErrorView::InvalidLimits)
    } else {
        match specified(operation, facts, runner.max_input_bytes as nat) {
            Err(e) => Err(e),
            Ok(specification) => if stdin is Some != takes_input(operation) {
                Err(FirewallCommandErrorView::UnexpectedInput)
            } else if stdin is Some && stdin->Some_0.len() > runner.max_input_bytes {
                Err(FirewallCommandErrorView::InputCapacity)
            } else {
                Ok(
                    PreparedCommandView {
                        specification,
                        candidates: program_paths(runner.command_dirs, specification.program),
                        accepts_stdin: takes_input(operation),
                        stream_limit: (runner.max_output_bytes / 2) as usize,
                    },
                )
            },
        }
    }
}

impl FirewallCommandRunner {
    /// A runner that looks executables up in the system directories.
    pub fn system(
        runtime_root: String,
        timeout_nanos: u128,
        max_input_bytes: usize,
        max_output_bytes: usize,
    ) -> (r: FirewallCommandRunner)
        ensures
            r@ == (FirewallCommandRunnerView {
                runtime_root: runtime_root@,
                command_dirs: system_dirs(),
                timeout_nanos,
                max_input_bytes,
                max_output_bytes,
            }),
    {
        let dirs = ["/usr/sbin", "/usr/bin", "/sbin", "/bin"];
        assert(views(dirs@) =~= system_dirs());
        FirewallCommandRunner {
            runtime_root,
            command_dirs: texts(&dirs),
            timeout_nanos,
            max_input_bytes,
            max_output_bytes,
        }
    }

    fn canonical_runtime_path(&self, path: &str, file: bool, facts: &PathFacts) -> (r: Result<
        String,
        FirewallCommandError,
    >)
        ensures
            vres(r) == safe_path(path@, file, facts@, self.max_input_bytes as nat),
    {
        let m = match &facts.metadata {
            Err(e) => {
                return Err(FirewallCommandError::Io(e.clone()));
            },
            Ok(m) => m,
        };
        let wrong = if file {
            !m.is_file || m.length > self.max_input_bytes as u64
        } else {
            !m.is_dir
        };
        if m.is_symlink || wrong || !plain_path(path) {
            return Err(FirewallCommandError::UnsafePath);
        }
        match (&facts.root, &facts.resolved) {
            (Err(e), _) => Err(FirewallCommandError::Io(e.clone())),
            (_, Err(e)) => Err(FirewallCommandError::Io(e.clone())),
            (Ok(root), Ok(resolved)) => if within(resolved.as_str(), root.as_str()) {
                Ok(resolved.clone())
            } else {
                Err(FirewallCommandError::UnsafePath)
            },
        }
    }

    /// The fixed program and arguments of an operation. An operation on a path runs only where the facts
    /// about that path allow it.
    pub fn specification(&self, operation: &FirewallCommand, facts: Option<&PathFacts>) -> (r: Result<
        CommandSpecification,
        FirewallCommandError,
    >)
        ensures
            vres(r) == specified(operation@, facts_view(facts), self.max_input_bytes as nat),
    {
        let path = match operation.staging_path() {
            None => String::new(),
            Some((path, file)) => match facts {
                None => {
                    return Err(FirewallCommandError::UnsafePath);
                },
                Some(f) => match self.canonical_runtime_path(path, file, f) {
                    Err(e) => {
                        return Err(e);
                    },
                    Ok(p) => p,
                },
            },
        };
        assert(staged_path(operation@) is None ==> path@ =~= Seq::empty());
        if let Some(s) = network_specification(operation, path.as_str()) {
            return Ok(s);
        }
        if let Some(s) = ip_specification(operation, path.as_str()) {
            return Ok(s);
        }
        if let Some(s) = firewall_specification(operation, path.as_str()) {
            return Ok(s);
        }
        if let Some(s) = native_specification(operation, path.as_str()) {
            return Ok(s);
        }
        Err(FirewallCommandError::UnsafePath)
    }

    fn resolve(&self, program: &str) -> (r: Vec<String>)
        ensures
            views(r@) == program_paths(self@.command_dirs, program@),
    {
        let mut r: Vec<String> = Vec::new();
        if starts_at_root(program) {
            r.push(program.to_owned());
            assert(views(r@) =~= seq![program@]);
            return r;
        }
        let ghost all = self@.command_dirs;
        let ghost want = program_paths(all, program@);
        let mut i: usize = 0;
        while i < self.command_dirs.len()
            invariant
                i <= self.command_dirs@.len(),
                all == views(self.command_dirs@),
                !is_absolute(program@),
                want == program_paths(all, program@),
                views(r@) =~= want.take(i as int),
            decreases self.command_dirs@.len() - i,
        {
            assert(all[i as int] == self.command_dirs@[i as int]@);
            r.push(join_path(self.command_dirs[i].as_str(), program));
            i = i + 1;
        }
        assert(want.take(i as int) =~= want);
        r
    }

    /// Makes one operation ready: checks the limits, the path that it works on and its input.
    pub fn prepare(
        &self,
        operation: &FirewallCommand,
        facts: Option<&PathFacts>,
        stdin: Option<&[u8]>,
    ) -> (r: Result<PreparedCommand, FirewallCommandError>)
        ensures
            vres(r) == prepared(self@, operation@, facts_view(facts), bytes_view(stdin)),
    {
        if self.timeout_nanos == 0 || self.max_input_bytes == 0 || self.max_output_bytes < 2 {
            return Err(FirewallCommandError::InvalidLimits);
        }
        let specification = match self.specification(operation, facts) {
            Ok(s) => s,
            Err(e) => {
                return Err(e);
            },
        };
        let accepts_stdin = operation.accepts_stdin();
        if stdin.is_some() != accepts_stdin {
            return Err(FirewallCommandError::UnexpectedInput);
        }
        if let Some(input) = stdin {
            if input.len() > self.max_input_bytes {
                return Err(FirewallCommandError::InputCapacity);
            }
        }
        let candidates = self.resolve(specification.program);
        Ok(
            PreparedCommand {
                specification,
                candidates,
                accepts_stdin,
                stream_limit: self.max_output_bytes / 2,
            },
        )
    }
}

/// Whether a file can be executed.
pub open spec fn is_executable(f: ExecutableFacts) -> bool {
    f.is_file && f.mode & 0o111 != 0
}

/// The first candidate from `i` on that was found to be executable.
pub open spec fn first_executable(
    candidates: Seq<Seq<char>>,
    found: Seq<ExecutableFacts>,
    i: int,
) -> Option<Seq<char>>
    decreases candidates.len() - i,
{
    if i < 0 || i >= candidates.len() {
        None
    } else if i < found.len() && is_executable(found[i]) {
        Some(candidates[i])
    } else {
        first_executable(candidates, found, i + 1)
    }
}

/// Picks the executable: the first candidate that is a regular file with a permission to execute.
pub fn choose_executable(candidates: &Vec<String>, found: &[ExecutableFacts]) -> (r: Result<
    String,
    FirewallCommandError,
>)
    ensures
        vres(r) == (match first_executable(views(candidates@), found@, 0) {
            Some(p) => Ok(p),
            None => Err(FirewallCommandErrorView::Unavailable),
        }),
{
    let ghost all = views(candidates@);
    let mut i: usize = 0;
    while i < candidates.len()
        invariant
            i <= candidates@.len(),
            all == views(candidates@),
            first_executable(all, found@, i as int) == first_executable(all, found@, 0),
        decreases candidates@.len() - i,
    {
        assert(all[i as int] == candidates@[i as int]@);
        if i < found.len() && found[i].is_file && found[i].mode & 0o111 != 0 {
            return Ok(candidates[i].clone());
        }
        i = i + 1;
    }
    Err(FirewallCommandError::Unavailable)
}

/// Decides what to do with a child that was looked at: an exit is taken over at any time, and a child that
/// runs for as long as its time is stopped.
pub fn watch(exited: bool, elapsed_nanos: u128, timeout_nanos: u128) -> (r: Watch)
    ensures
        r == (if exited {
            Watch::Exited
        } else if elapsed_nanos >= timeout_nanos {
            Watch::Kill
        } else {
            Watch::Wait
        }),
{
    if exited {
        Watch::Exited
    } else if elapsed_nanos >= timeout_nanos {
        Watch::Kill
    } else {
        Watch::Wait
    }
}

/// What a stream of a command comes to: as many of its bytes as the limit allows, and whether it had
/// more.
pub open spec fn captured(bytes: Seq<u8>, limit: int) -> CapturedView {
    CapturedView {
        bytes: first_bytes(bytes, limit),
        truncated: bytes.len() > limit,
    }
}

/// Bounds a stream of which one byte more than the limit was read.
pub fn capture(bytes: Vec<u8>, limit: usize) -> (r: Captured)
    ensures
        r@ == captured(bytes@, limit as int),
{
    let mut kept = bytes;
    let truncated = kept.len() > limit;
    kept.truncate(limit);
    proof {
        lemma_bytes(kept@);
        assert(kept@ =~= first_bytes(bytes@, limit as int));
    }
    Captured { bytes: kept, truncated }
}

/// The result of a command that exited.
pub open spec fn concluded(
    stdout: CapturedView,
    stderr: CapturedView,
    success: bool,
    elapsed_millis: u128,
) -> Result<FirewallCommandOutputView, FirewallCommandErrorView> {
    if stdout.truncated || stderr.truncated {
        Err(FirewallCommandErrorView::OutputCapacity)
    } else if !success {
        Err(FirewallCommandErrorView::Unsuccessful)
    } else {
        Ok(
            FirewallCommandOutputView {
                stdout: stdout.bytes,
                stderr: stderr.bytes,
                truncated: false,
                duration_ms: if elapsed_millis <= u64::MAX {
                    elapsed_millis as u64
                } else {
                    u64::MAX
                },
            },
        )
    }
}

/// Turns what a command left behind into its result.
pub fn conclude(stdout: Captured, stderr: Captured, success: bool, elapsed_millis: u128) -> (r: Result<
    FirewallCommandOutput,
    FirewallCommandError,
>)
    ensures
        vres(r) == concluded(stdout@, stderr@, success, elapsed_millis),
{
    if stdout.truncated || stderr.truncated {
        return Err(FirewallCommandError::OutputCapacity);
    }
    if !success {
        return Err(FirewallCommandError::Unsuccessful);
    }
    Ok(
        FirewallCommandOutput {
            stdout: stdout.bytes,
            stderr: stderr.bytes,
            truncated: false,
            duration_ms: if elapsed_millis <= u64::MAX as u128 {
                elapsed_millis as u64
            } else {
                u64::MAX
            },
        },
    )
}

/// An operation on a path runs only where the path never climbs and, with every link resolved, lies in the
/// runtime directory. It runs on the resolved path.
pub proof fn law_paths_stay_below_the_runtime_root(
    operation: FirewallCommandView,
    facts: PathFactsView,
    max_input_bytes: nat,
)
    requires
        staged_path(operation) is Some,
        specified(operation, Some(facts), max_input_bytes) is Ok,
    ensures
        facts.root is Ok,
        facts.resolved is Ok,
        is_within(facts.resolved->Ok_0, facts.root->Ok_0),
        is_plain(staged_path(operation)->Some_0.0),
        specified(operation, Some(facts), max_input_bytes)->Ok_0 == specification_of(
            operation,
            facts.resolved->Ok_0,
        ),
{
}

/// Only a batch of changes to a package and a restore of a rule set read an input, and they never
/// run without one.
pub proof fn law_input_goes_to_batches_and_restores_only(
    runner: FirewallCommandRunnerView,
    operation: FirewallCommandView,
    facts: Option<PathFactsView>,
    stdin: Option<Seq<u8>>,
)
    requires
        prepared(runner, operation, facts, stdin) is Ok,
    ensures
        stdin is Some == takes_input(operation),
        stdin is Some ==> stdin->Some_0.len() <= runner.max_input_bytes,
{
}

} // verus!
