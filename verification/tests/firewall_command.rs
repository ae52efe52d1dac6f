//! The closed set of commands.

use platform_linux::firewall_command::{
    capture, choose_executable, conclude, watch, ExecutableFacts, FirewallCommand,
    FirewallCommandError, FirewallCommandRunner, PathFacts, PathMetadata, Watch,
};

fn runner(max_input_bytes: usize, max_output_bytes: usize) -> FirewallCommandRunner {
    FirewallCommandRunner {
        runtime_root: "/tmp/agent/runtime".to_owned(),
        command_dirs: vec!["/tmp/agent/bin".to_owned()],
        timeout_nanos: 5_000_000_000,
        max_input_bytes,
        max_output_bytes,
    }
}

fn found(metadata: PathMetadata, resolved: &str) -> PathFacts {
    PathFacts {
        metadata: Ok(metadata),
        root: Ok("/tmp/agent/runtime".to_owned()),
        resolved: Ok(resolved.to_owned()),
    }
}

fn directory() -> PathMetadata {
    PathMetadata { is_dir: true, is_file: false, is_symlink: false, length: 4096 }
}

fn file(length: u64) -> PathMetadata {
    PathMetadata { is_dir: false, is_file: true, is_symlink: false, length }
}

#[test]
fn staging_files_must_be_regular_bounded_and_below_runtime_root() {
    let runner = runner(4, 32);
    let check = |path: &str, facts: PathFacts| {
        runner.specification(
            &FirewallCommand::NftCheck { ruleset: path.to_owned() },
            Some(&facts),
        )
    };
    assert_eq!(
        check("/tmp/agent/outside.nft", found(file(2), "/tmp/agent/outside.nft")),
        Err(FirewallCommandError::UnsafePath)
    );
    assert_eq!(
        check("/tmp/agent/runtime/large.nft", found(file(5), "/tmp/agent/runtime/large.nft")),
        Err(FirewallCommandError::UnsafePath)
    );
    assert_eq!(
        check("/tmp/agent/runtime/escape/escaped.nft", found(file(2), "/tmp/agent/escaped.nft")),
        Err(FirewallCommandError::UnsafePath)
    );
    let good = check("/tmp/agent/runtime/rules.nft", found(file(2), "/tmp/agent/runtime/rules.nft"))
        .expect("below the runtime root");
    assert_eq!(good.program, "nft");
    assert_eq!(good.arguments, ["--check", "--file", "/tmp/agent/runtime/rules.nft"]);
}

#[test]
fn network_uci_operations_have_fixed_package_and_staging_arguments() {
    let runner = runner(1024, 1024);
    let live = runner
        .specification(&FirewallCommand::UciShowNetwork, None)
        .expect("live specification");
    assert_eq!(live.program, "uci");
    assert_eq!(live.arguments, ["-q", "show", "network"]);
    let staging = "/tmp/agent/runtime/staging/change-1";
    let staged = runner
        .specification(
            &FirewallCommand::UciExportNetworkAt { staging_dir: staging.to_owned() },
            Some(&found(directory(), staging)),
        )
        .expect("staged specification");
    assert_eq!(staged.program, "uci");
    assert_eq!(staged.arguments[1], staging);
    assert_eq!(staged.arguments[2], "-q");
    assert_eq!(staged.arguments[3], "export");
    assert_eq!(staged.arguments[4], "network");
}

#[test]
fn runtime_network_inventory_operations_are_fixed_and_read_only() {
    let runner = runner(1024, 1024);
    for (operation, expected) in [
        (FirewallCommand::IpJsonLink, vec!["-j", "link", "show"]),
        (FirewallCommand::IpJsonAddress, vec!["-j", "address", "show"]),
        (FirewallCommand::IpJsonRoute, vec!["-j", "route", "show", "table", "all"]),
    ] {
        let specification = runner.specification(&operation, None).expect("specification");
        assert_eq!(specification.program, "ip");
        assert_eq!(specification.arguments, expected);
    }
}

#[test]
fn every_operation_has_its_program() {
    let runner = runner(1024, 1024);
    let dir = "/tmp/agent/runtime/staging/a".to_owned();
    let facts = found(directory(), &dir);
    let at = |operation: FirewallCommand| {
        let s = runner.specification(&operation, Some(&facts)).expect("specification");
        (s.program, s.arguments, s.uci_config_dir)
    };
    assert_eq!(
        at(FirewallCommand::Fw3PrintIpv6 { staging_dir: dir.clone() }),
        ("fw3", vec!["-6".to_owned(), "-q".to_owned(), "print".to_owned()], Some(dir.clone()))
    );
    assert_eq!(
        at(FirewallCommand::Fw4Check { staging_dir: dir.clone() }),
        ("fw4", vec!["-q".to_owned(), "check".to_owned()], Some(dir.clone()))
    );
    assert_eq!(
        at(FirewallCommand::UciBatch { staging_dir: dir.clone() }),
        ("uci", vec!["-c".to_owned(), dir.clone(), "batch".to_owned()], None)
    );
    assert_eq!(
        at(FirewallCommand::OpenWrtFirewallReload),
        ("/etc/init.d/firewall", vec!["reload".to_owned()], None)
    );
    assert_eq!(at(FirewallCommand::IptablesSave { ipv6: true }), ("ip6tables-save", vec![], None));
    assert_eq!(
        at(FirewallCommand::IptablesRestoreTest { ipv6: false }),
        ("iptables-restore", vec!["--test".to_owned(), "--noflush".to_owned()], None)
    );
}

#[test]
fn input_is_bounded_and_goes_to_restores_only() {
    let runner = runner(32, 32);
    let restore = FirewallCommand::IptablesRestoreTest { ipv6: false };
    let ready = runner
        .prepare(&restore, None, Some(b"*filter\nCOMMIT\n"))
        .expect("restore takes its input");
    assert!(ready.accepts_stdin);
    assert_eq!(ready.candidates, ["/tmp/agent/bin/iptables-restore"]);
    assert_eq!(ready.stream_limit, 16);
    assert_eq!(runner.prepare(&restore, None, None), Err(FirewallCommandError::UnexpectedInput));
    assert_eq!(
        runner.prepare(&FirewallCommand::NftListTables, None, Some(b"x")),
        Err(FirewallCommandError::UnexpectedInput)
    );
    assert_eq!(
        runner.prepare(&restore, None, Some(&[0; 33])),
        Err(FirewallCommandError::InputCapacity)
    );
    let mut silent = runner.clone();
    silent.max_output_bytes = 1;
    assert_eq!(
        silent.prepare(&restore, None, Some(b"x")),
        Err(FirewallCommandError::InvalidLimits)
    );
}

#[test]
fn a_path_that_could_not_be_looked_at_is_an_io_error() {
    let operation = FirewallCommand::NftLoad { ruleset: "/tmp/agent/runtime/a".to_owned() };
    let facts = PathFacts {
        metadata: Err("no such file".to_owned()),
        root: Ok("/tmp/agent/runtime".to_owned()),
        resolved: Ok("/tmp/agent/runtime/a".to_owned()),
    };
    let error = runner(8, 8).specification(&operation, Some(&facts)).expect_err("io");
    assert_eq!(error, FirewallCommandError::Io("no such file".to_owned()));
    assert_eq!(error.message(), "firewall command I/O failed: no such file");
    assert_eq!(runner(8, 8).specification(&operation, None), Err(FirewallCommandError::UnsafePath));
}

#[test]
fn the_first_executable_candidate_is_taken() {
    let candidates = vec!["/usr/sbin/nft".to_owned(), "/usr/bin/nft".to_owned()];
    let plain = ExecutableFacts { is_file: true, mode: 0o644 };
    let runnable = ExecutableFacts { is_file: true, mode: 0o755 };
    assert_eq!(choose_executable(&candidates, &[plain, runnable]), Ok("/usr/bin/nft".to_owned()));
    assert_eq!(
        choose_executable(&candidates, &[plain, plain]),
        Err(FirewallCommandError::Unavailable)
    );
    let system = FirewallCommandRunner::system("/tmp/agent".to_owned(), 1, 8, 8);
    assert_eq!(system.command_dirs, ["/usr/sbin", "/usr/bin", "/sbin", "/bin"]);
    let ready = system.prepare(&FirewallCommand::OpenWrtNetworkReload, None, None).expect("ready");
    assert_eq!(ready.candidates, ["/etc/init.d/network"]);
}

#[test]
fn a_child_is_stopped_when_its_time_is_up() {
    assert_eq!(watch(false, 99, 100), Watch::Wait);
    assert_eq!(watch(false, 100, 100), Watch::Kill);
    assert_eq!(watch(true, 1000, 100), Watch::Exited);
}

#[test]
fn truncated_output_and_failures_are_refused() {
    let whole = || capture(b"ok".to_vec(), 2);
    assert!(!whole().truncated);
    let cut = capture(b"too long".to_vec(), 3);
    assert_eq!(cut.bytes, b"too");
    assert!(cut.truncated);
    assert_eq!(conclude(cut, whole(), true, 1), Err(FirewallCommandError::OutputCapacity));
    assert_eq!(conclude(whole(), whole(), false, 1), Err(FirewallCommandError::Unsuccessful));
    let output = conclude(whole(), capture(Vec::new(), 2), true, u128::MAX).expect("output");
    assert_eq!(output.stdout, b"ok");
    assert_eq!(output.duration_ms, u64::MAX);
}
