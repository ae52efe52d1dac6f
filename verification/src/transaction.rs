//! What the native transactions share.

use vstd::prelude::*;

use vstd::string::*;
use vstd::utf8::*;

use crate::digest::{digest_of, digest_value, first_bytes, hex_pairs, hex_prefix};
use crate::firewall_command::{
    FirewallCommand, FirewallCommandError, FirewallCommandErrorView, FirewallCommandExecutor, FirewallCommandOutput,
    FirewallCommandOutputView, FirewallCommandView,
};
use crate::items::Item;
use crate::path::{is_plain, is_volatile, join_path, path_join, plain_path, volatile_path};
use crate::text::{alnum, byte_len, byte_length, chars_of, is_alnum};
use crate::views::{group_views, opt, views, vres};

verus! {

broadcast use group_views;

/// How far a transaction is. Each step leads to the next one only.
#[derive(Debug, Clone, Copy, PartialEq, Eq, Structural)]
pub enum TransactionState {
    New,
    Inspected,
    Staged,
    Validated,
    Activated,
    Verified,
}

impl View for TransactionState {
    type V = TransactionState;

    open spec fn view(&self) -> TransactionState {
        *self
    }
}

impl Item for TransactionState {
    fn alike(&self, other: &Self) -> (r: bool) {
        *self == *other
    }

    fn twin(&self) -> (r: Self) {
        *self
    }
}

/// The step whose commands a transaction waits for.
#[derive(Debug, Clone, Copy, PartialEq, Eq, Structural)]
pub enum Pending {
    Nothing,
    Stage,
    Validation,
    Activation,
}

impl View for Pending {
    type V = Pending;

    open spec fn view(&self) -> Pending {
        *self
    }
}

impl Item for Pending {
    fn alike(&self, other: &Self) -> (r: bool) {
        *self == *other
    }

    fn twin(&self) -> (r: Self) {
        *self
    }
}

/// What a path was found to be.
#[derive(Debug, Clone, Copy, PartialEq, Eq, Structural)]
pub struct FileFacts {
    pub is_dir: bool,
    pub is_file: bool,
    pub is_symlink: bool,
    pub length: u64,
    pub uid: u32,
    pub gid: u32,
    pub mode: u32,
}

impl View for FileFacts {
    type V = FileFacts;

    open spec fn view(&self) -> FileFacts {
        *self
    }
}

impl Item for FileFacts {
    fn alike(&self, other: &Self) -> (r: bool) {
        *self == *other
    }

    fn twin(&self) -> (r: Self) {
        *self
    }
}

/// What can be wrong with a configuration file.
#[derive(Debug, Clone, Copy, PartialEq, Eq, Structural)]
pub enum ConfigFault {
    Unsafe,
    Changed,
}

impl View for ConfigFault {
    type V = ConfigFault;

    open spec fn view(&self) -> ConfigFault {
        *self
    }
}

impl Item for ConfigFault {
    fn alike(&self, other: &Self) -> (r: bool) {
        *self == *other
    }

    fn twin(&self) -> (r: Self) {
        *self
    }
}

pub const MAX_CONFIG_BYTES: u64 = 262144;

/// A command to run, with its input.
#[derive(Debug, Clone, PartialEq, Eq)]
pub struct Invocation {
    pub command: FirewallCommand,
    pub stdin: Option<Vec<u8>>,
}

#[verifier::ext_equal]
pub struct InvocationView {
    pub command: FirewallCommandView,
    pub stdin: Option<Seq<u8>>,
}

impl View for Invocation {
    type V = InvocationView;

    open spec fn view(&self) -> InvocationView {
        InvocationView { command: self.command@, stdin: opt(self.stdin) }
    }
}

/// A command without an input.
pub open spec fn bare_run(command: FirewallCommandView) -> InvocationView {
    InvocationView { command, stdin: None }
}

pub fn run_bare(command: FirewallCommand) -> (r: Invocation)
    ensures
        r@ == bare_run(command@),
{
    Invocation { command, stdin: None }
}

/// The bytes of a text as the input of a command.
pub fn run_with(command: FirewallCommand, text: &str) -> (r: Invocation)
    ensures
        r@ == (InvocationView { command: command@, stdin: Some(encode_utf8(text@)) }),
{
    Invocation { command, stdin: Some(copy_bytes(text.as_bytes())) }
}

pub fn copy_bytes(bytes: &[u8]) -> (r: Vec<u8>)
    ensures
        r@ == bytes@,
{
    let mut r: Vec<u8> = Vec::new();
    let mut i: usize = 0;
    while i < bytes.len()
        invariant
            i <= bytes@.len(),
            r@ =~= bytes@.take(i as int),
        decreases bytes@.len() - i,
    {
        r.push(bytes[i]);
        i = i + 1;
    }
    assert(bytes@.take(i as int) =~= bytes@);
    r
}

pub fn same_bytes(a: &[u8], b: &[u8]) -> (r: bool)
    ensures
        r == (a@ == b@),
{
    if a.len() != b.len() {
        return false;
    }
    let mut i: usize = 0;
    while i < a.len()
        invariant
            i <= a@.len() == b@.len(),
            forall|j: int| 0 <= j < i ==> a@[j] == b@[j],
        decreases a@.len() - i,
    {
        if a[i] != b[i] {
            return false;
        }
        i = i + 1;
    }
    assert(a@ =~= b@);
    true
}

/// The views of a list of replies.
pub open spec fn reply_views(
    s: Seq<Result<FirewallCommandOutput, FirewallCommandError>>,
) -> Seq<Result<FirewallCommandOutputView, FirewallCommandErrorView>> {
    Seq::new(s.len(), |i: int| vres(s[i]))
}

/// The first failure among the replies from `i` on.
pub open spec fn first_failure(
    replies: Seq<Result<FirewallCommandOutputView, FirewallCommandErrorView>>,
    i: int,
) -> Option<FirewallCommandErrorView>
    decreases replies.len() - i,
{
    if i < 0 || i >= replies.len() {
        None
    } else {
        match replies[i] {
            Err(e) => Some(e),
            Ok(_) => first_failure(replies, i + 1),
        }
    }
}

pub fn copy_error(e: &FirewallCommandError) -> (r: FirewallCommandError)
    ensures
        r@ == e@,
{
    match e {
        FirewallCommandError::InvalidLimits => FirewallCommandError::InvalidLimits,
        FirewallCommandError::Unavailable => FirewallCommandError::Unavailable,
        FirewallCommandError::UnexpectedInput => FirewallCommandError::UnexpectedInput,
        FirewallCommandError::InputCapacity => FirewallCommandError::InputCapacity,
        FirewallCommandError::OutputCapacity => FirewallCommandError::OutputCapacity,
        FirewallCommandError::UnsafePath => FirewallCommandError::UnsafePath,
        FirewallCommandError::MissingPipe => FirewallCommandError::MissingPipe,
        FirewallCommandError::TimedOut => FirewallCommandError::TimedOut,
        FirewallCommandError::Unsuccessful => FirewallCommandError::Unsuccessful,
        FirewallCommandError::ReaderPanicked => FirewallCommandError::ReaderPanicked,
        FirewallCommandError::Io(s) => FirewallCommandError::Io(s.clone()),
    }
}

/// Finds the first failure among replies.
pub fn failure(replies: &Vec<Result<FirewallCommandOutput, FirewallCommandError>>) -> (r: Option<
    FirewallCommandError,
>)
    ensures
        opt(r) == first_failure(reply_views(replies@), 0),
{
    let ghost all = reply_views(replies@);
    let mut i: usize = 0;
    while i < replies.len()
        invariant
            i <= replies@.len(),
            all == reply_views(replies@),
            first_failure(all, i as int) == first_failure(all, 0),
        decreases replies@.len() - i,
    {
        assert(all[i as int] == vres(replies@[i as int]));
        if let Err(e) = &replies[i] {
            return Some(copy_error(e));
        }
        i = i + 1;
    }
    None
}

pub proof fn lemma_no_failure(
    replies: Seq<Result<FirewallCommandOutputView, FirewallCommandErrorView>>,
    i: int,
    j: int,
)
    requires
        0 <= i <= j < replies.len(),
        first_failure(replies, i) is None,
    ensures
        replies[j] is Ok,
    decreases replies.len() - i,
{
    if i < j {
        lemma_no_failure(replies, i + 1, j);
    }
}

/// Whether a text can name a transaction: not empty, bounded, of letters, digits and hyphens.
pub open spec fn is_transaction_id(s: Seq<char>) -> bool {
    0 < s.len() && byte_len(s) <= 64 && forall|i: int|
        0 <= i < s.len() ==> is_id_char(#[trigger] s[i])
}

pub open spec fn is_id_char(c: char) -> bool {
    is_alnum(c) || c == '-'
}

pub fn transaction_name(s: &str) -> (r: bool)
    ensures
        r == is_transaction_id(s@),
{
    let cs = chars_of(s);
    if cs.len() == 0 || byte_length(s) > 64 {
        return false;
    }
    let mut i: usize = 0;
    while i < cs.len()
        invariant
            i <= cs@.len(),
            cs@ == s@,
            0 < s@.len(),
            byte_len(s@) <= 64,
            forall|j: int| 0 <= j < i ==> is_id_char(#[trigger] s@[j]),
        decreases cs@.len() - i,
    {
        if !(alnum(cs[i]) || cs[i] == '-') {
            assert(!is_id_char(s@[i as int]));
            return false;
        }
        i = i + 1;
    }
    true
}

/// Whether the runtime directory of the system is acceptable: below the volatile directory, without
/// climbing.
pub open spec fn is_system_root(path: Seq<char>) -> bool {
    is_plain(path) && is_volatile(path)
}

pub fn safe_system_runtime_root(path: &str) -> (r: bool)
    ensures
        r == is_system_root(path@),
{
    plain_path(path) && volatile_path(path)
}

/// Whether a file belongs to the system, where that is asked for.
pub open spec fn is_owned_file(f: FileFacts, require_root: bool) -> bool {
    require_root ==> f.uid == 0 && f.gid == 0
}

/// Whether a configuration file may be read: a regular and bounded one, not a link, of the right
/// owner.
pub open spec fn is_readable_config(f: FileFacts, require_root: bool) -> bool {
    f.is_file && !f.is_symlink && f.length <= MAX_CONFIG_BYTES && is_owned_file(f, require_root)
}

pub fn may_read_config(f: FileFacts, require_root: bool) -> (r: bool)
    ensures
        r == is_readable_config(f, require_root),
{
    f.is_file && !f.is_symlink && f.length <= MAX_CONFIG_BYTES && (!require_root || (f.uid == 0 && f.gid
        == 0))
}

/// Whether an installed configuration file may be replaced.
pub open spec fn is_replaceable(f: FileFacts, require_root: bool) -> bool {
    f.is_file && !f.is_symlink && is_owned_file(f, require_root)
}

pub fn may_replace(f: FileFacts, require_root: bool) -> (r: bool)
    ensures
        r == is_replaceable(f, require_root),
{
    f.is_file && !f.is_symlink && (!require_root || (f.uid == 0 && f.gid == 0))
}

/// The permissions that a replaced file keeps.
pub fn kept_mode(f: FileFacts) -> (r: u32)
    ensures
        r == f.mode & 0o777,
{
    f.mode & 0o777
}

/// Whether a directory is one, and not a link.
pub open spec fn is_real_dir(f: FileFacts) -> bool {
    f.is_dir && !f.is_symlink
}

pub fn real_dir(f: FileFacts) -> (r: bool)
    ensures
        r == is_real_dir(f),
{
    f.is_dir && !f.is_symlink
}

/// Whether a runtime directory is acceptable: a directory of the right owner.
pub open spec fn is_runtime_dir(f: FileFacts, require_root: bool) -> bool {
    is_real_dir(f) && is_owned_file(f, require_root)
}

pub fn runtime_dir(f: FileFacts, require_root: bool) -> (r: bool)
    ensures
        r == is_runtime_dir(f, require_root),
{
    f.is_dir && !f.is_symlink && (!require_root || (f.uid == 0 && f.gid == 0))
}

/// Whether no one but its owner may use a directory.
pub open spec fn is_private_dir(f: FileFacts) -> bool {
    is_real_dir(f) && f.mode & 0o077 == 0
}

pub fn private_dir(f: FileFacts) -> (r: bool)
    ensures
        r == is_private_dir(f),
{
    f.is_dir && !f.is_symlink && f.mode & 0o077 == 0
}

/// The directory below the runtime directory that stages lie in.
pub open spec fn staging_root_of(runtime_root: Seq<char>) -> Seq<char> {
    path_join(runtime_root, "staging"@)
}

/// The directory of one transaction.
pub open spec fn staging_dir_of(runtime_root: Seq<char>, id: Seq<char>) -> Seq<char> {
    path_join(staging_root_of(runtime_root), id)
}

pub fn staging_root(runtime_root: &str) -> (r: String)
    ensures
        r@ == staging_root_of(runtime_root@),
{
    join_path(runtime_root, "staging")
}

pub fn staging_directory(runtime_root: &str, id: &str) -> (r: String)
    ensures
        r@ == staging_dir_of(runtime_root@, id@),
{
    join_path(staging_root(runtime_root).as_str(), id)
}

/// The name of the file that an installation goes through.
pub open spec fn temporary_name_of(id: Seq<char>) -> Seq<char> {
    ".mbed-agent-"@ + id + ".tmp"@
}

pub fn temporary_name(id: &str) -> (r: String)
    ensures
        r@ == temporary_name_of(id@),
{
    let mut name = ".mbed-agent-".to_owned();
    name.append(id);
    name.append(".tmp");
    name
}

/// The digest of a configuration in hexadecimal, unless it is too long for one.
pub open spec fn hex_digest_of(bytes: Seq<u8>) -> Option<Seq<char>> {
    match digest_value(bytes) {
        Some(d) => Some(hex_pairs(d)),
        None => None,
    }
}

pub fn hex_digest(bytes: &[u8]) -> (r: Option<String>)
    ensures
        opt(r) == hex_digest_of(bytes@),
{
    match digest_of(bytes) {
        Some(d) => {
            assert(first_bytes(d@, 32) =~= d@);
            Some(hex_prefix(d.as_slice(), 32))
        },
        None => None,
    }
}

/// What a configuration file was found to be, and what was read from it.
#[derive(Debug, Clone, PartialEq, Eq)]
pub struct ConfigRead {
    pub facts: FileFacts,
    pub bytes: Vec<u8>,
}

#[verifier::ext_equal]
pub struct ConfigReadView {
    pub facts: FileFacts,
    pub bytes: Seq<u8>,
}

impl View for ConfigRead {
    type V = ConfigReadView;

    open spec fn view(&self) -> ConfigReadView {
        ConfigReadView { facts: self.facts, bytes: self.bytes@ }
    }
}

/// What is wrong with a configuration file that was read.
pub open spec fn config_fault(c: ConfigReadView, require_root: bool) -> Option<ConfigFault> {
    if !is_readable_config(c.facts, require_root) {
        Some(ConfigFault::Unsafe)
    } else if c.bytes.len() != c.facts.length {
        Some(ConfigFault::Changed)
    } else {
        None
    }
}

/// Checks a configuration file that was read: it may be read, and it did not change meanwhile.
pub fn check_config(c: &ConfigRead, require_root: bool) -> (r: Option<ConfigFault>)
    ensures
        r == config_fault(c@, require_root),
{
    if !may_read_config(c.facts, require_root) {
        Some(ConfigFault::Unsafe)
    } else if c.bytes.len() as u64 != c.facts.length {
        Some(ConfigFault::Changed)
    } else {
        None
    }
}

/// A configuration that passes its check can be digested.
pub proof fn lemma_config_digest(c: ConfigReadView, require_root: bool)
    requires
        config_fault(c, require_root) is None,
    ensures
        hex_digest_of(c.bytes) is Some,
{
}

/// The view of an optional input.
pub open spec fn input_view(s: Option<&[u8]>) -> Option<Seq<u8>> {
    match s {
        Some(b) => Some(b@),
        None => None,
    }
}

/// Whether an executor may give a reply to a command with its input.
pub open spec fn may_reply<E: FirewallCommandExecutor>(
    executor: &E,
    i: InvocationView,
    reply: Result<FirewallCommandOutputView, FirewallCommandErrorView>,
) -> bool {
    exists|
        c: FirewallCommand,
        s: Option<&[u8]>,
        a: Result<FirewallCommandOutput, FirewallCommandError>,
    |
        c@ == i.command && input_view(s) == i.stdin && vres(a) == reply && #[trigger] call_ensures(
            E::execute,
            (executor, &c, s),
            a,
        )
}

/// Whether an executor may give these replies to these commands: in their order, up to the first that fails.
pub open spec fn may_replies<E: FirewallCommandExecutor>(
    executor: &E,
    list: Seq<InvocationView>,
    replies: Seq<Result<FirewallCommandOutputView, FirewallCommandErrorView>>,
) -> bool {
    &&& replies.len() <= list.len()
    &&& forall|i: int|
        0 <= i < replies.len() ==> may_reply(executor, list[i], #[trigger] replies[i]) && (i + 1
            < replies.len() ==> replies[i] is Ok)
    &&& replies.len() < list.len() ==> replies.len() > 0 && replies.last() is Err
}

/// Runs one command with its input.
pub fn run_one<E: FirewallCommandExecutor>(executor: &E, i: &Invocation) -> (r: Result<
    FirewallCommandOutput,
    FirewallCommandError,
>)
    ensures
        may_reply(executor, i@, vres(r)),
{
    let input: Option<&[u8]> = match &i.stdin {
        Some(b) => Some(b.as_slice()),
        None => None,
    };
    let reply = executor.execute(&i.command, input);
    assert(input_view(input) == i@.stdin);
    assert(call_ensures(E::execute, (executor, &i.command, input), reply));
    reply
}

/// Runs commands in their order, up to the first that fails.
pub fn run_all<E: FirewallCommandExecutor>(executor: &E, list: &[Invocation]) -> (r: Vec<
    Result<FirewallCommandOutput, FirewallCommandError>,
>)
    ensures
        may_replies(executor, views(list@), reply_views(r@)),
{
    let mut r: Vec<Result<FirewallCommandOutput, FirewallCommandError>> = Vec::new();
    let mut i: usize = 0;
    while i < list.len()
        invariant
            i <= list@.len(),
            r@.len() == i,
            forall|j: int|
                0 <= j < i ==> may_reply(executor, list@[j]@, #[trigger] reply_views(r@)[j])
                    && reply_views(r@)[j] is Ok,
        decreases list@.len() - i,
    {
        let reply = run_one(executor, &list[i]);
        let failed = reply.is_err();
        let ghost before = reply_views(r@);
        r.push(reply);
        assert(reply_views(r@) =~= before.push(vres(reply)));
        if failed {
            return r;
        }
        i = i + 1;
    }
    r
}

/// What is to be staged: a file in a directory of its own, and the commands to run then.
#[derive(Debug, Clone, PartialEq, Eq)]
pub struct StagingPlan {
    pub staging_root: String,
    pub staging_dir: String,
    pub file: String,
    pub contents: Vec<u8>,
    pub invocations: Vec<Invocation>,
}

#[verifier::ext_equal]
pub struct StagingPlanView {
    pub staging_root: Seq<char>,
    pub staging_dir: Seq<char>,
    pub file: Seq<char>,
    pub contents: Seq<u8>,
    pub invocations: Seq<InvocationView>,
}

impl View for StagingPlan {
    type V = StagingPlanView;

    open spec fn view(&self) -> StagingPlanView {
        StagingPlanView {
            staging_root: self.staging_root@,
            staging_dir: self.staging_dir@,
            file: self.file@,
            contents: self.contents@,
            invocations: views(self.invocations@),
        }
    }
}

/// What is to be installed: a staged file over another, through a temporary one beside that, and
/// the command to run then.
#[derive(Debug, Clone, PartialEq, Eq)]
pub struct InstallPlan {
    pub staged: String,
    pub destination: String,
    pub temporary_name: String,
    pub reload: Invocation,
}

#[verifier::ext_equal]
pub struct InstallPlanView {
    pub staged: Seq<char>,
    pub destination: Seq<char>,
    pub temporary_name: Seq<char>,
    pub reload: InvocationView,
}

impl View for InstallPlan {
    type V = InstallPlanView;

    open spec fn view(&self) -> InstallPlanView {
        InstallPlanView {
            staged: self.staged@,
            destination: self.destination@,
            temporary_name: self.temporary_name@,
            reload: self.reload@,
        }
    }
}

} // verus!
