use nextest_runner::artifact::RustTestArtifact;
use nextest_runner::build_meta::RustBuildMeta;
use nextest_runner::command::join_strings;
use nextest_runner::command::make_test_expression;
use nextest_runner::command::program_and_prefix;
use nextest_runner::command::PlatformRunner;
use nextest_runner::command::TargetRunner;
use nextest_runner::command::TestCommand;
use nextest_runner::dylib::HostEnv;
use nextest_runner::dylib::HostPlatform;
use nextest_runner::filter::RunIgnored;
use nextest_runner::filter::TestFilterBuilder;
use nextest_runner::metadata::BuildPlatform;
use nextest_runner::package::PackageInfo;
use nextest_runner::package::PackageVersion;
use nextest_runner::path_mapper::PathMapper;
use nextest_runner::test_list::TestList;
use nextest_runner::text::decimal_string;

fn full_package() -> PackageInfo {
    PackageInfo {
        id: "pkg 1.20.300-beta.1 (registry)".to_owned(),
        name: "pkg".to_owned(),
        version: PackageVersion {
            major: 1,
            minor: 20,
            patch: 300,
            pre: "beta.1".to_owned(),
            full: "1.20.300-beta.1".to_owned(),
        },
        authors: vec!["A <a@example.com>".to_owned(), "B".to_owned()],
        description: Some("A package".to_owned()),
        homepage: Some("https://example.com".to_owned()),
        license: Some("MIT".to_owned()),
        license_file: Some("LICENSE".to_owned()),
        repository: Some("https://example.com/repo".to_owned()),
        manifest_dir: "/build/pkg".to_owned(),
        is_proc_macro: false,
    }
}

fn bare_package() -> PackageInfo {
    PackageInfo {
        id: "bare".to_owned(),
        name: "bare".to_owned(),
        version: PackageVersion {
            major: 0,
            minor: 0,
            patch: 0,
            pre: String::new(),
            full: "0.0.0".to_owned(),
        },
        authors: vec![],
        description: None,
        homepage: None,
        license: None,
        license_file: None,
        repository: None,
        manifest_dir: "/bare".to_owned(),
        is_proc_macro: false,
    }
}

fn pairs(env: &[(&str, &str)]) -> Vec<(String, String)> {
    env.iter().map(|(name, value)| ((*name).to_owned(), (*value).to_owned())).collect()
}

fn strings(args: &[&str]) -> Vec<String> {
    args.iter().map(|arg| (*arg).to_owned()).collect()
}

fn artifact(build_platform: BuildPlatform) -> RustTestArtifact {
    RustTestArtifact {
        binary_id: "pkg::bin".to_owned(),
        package: bare_package(),
        binary_path: "/run/target/bin-1".to_owned(),
        binary_name: "bin".to_owned(),
        cwd: "/run/bare".to_owned(),
        build_platform,
    }
}

fn bare_env(cwd: &str, variable: &str, dylib_path: &str) -> Vec<(String, String)> {
    pairs(&[
        ("NEXTEST", "1"),
        ("NEXTEST_EXECUTION_MODE", "process-per-test"),
        ("CARGO_MANIFEST_DIR", cwd),
        ("NEXTEST_ORIGINAL_CARGO_MANIFEST_DIR", "/bare"),
        ("CARGO_PKG_VERSION", "0.0.0"),
        ("CARGO_PKG_VERSION_MAJOR", "0"),
        ("CARGO_PKG_VERSION_MINOR", "0"),
        ("CARGO_PKG_VERSION_PATCH", "0"),
        ("CARGO_PKG_VERSION_PRE", ""),
        ("CARGO_PKG_AUTHORS", ""),
        ("CARGO_PKG_NAME", "bare"),
        ("CARGO_PKG_DESCRIPTION", ""),
        ("CARGO_PKG_HOMEPAGE", ""),
        ("CARGO_PKG_LICENSE", ""),
        ("CARGO_PKG_LICENSE_FILE", ""),
        ("CARGO_PKG_REPOSITORY", ""),
        (variable, dylib_path),
    ])
}

fn target_only_runner() -> TargetRunner {
    TargetRunner::new(
        None,
        Some(PlatformRunner::new("qemu".to_owned(), strings(&["-L", "/sysroot"]))),
    )
}

#[test]
fn a_test_process_gets_the_environment_of_its_package() {
    let command = make_test_expression(
        "/run/target/bin-1".to_owned(),
        false,
        strings(&["--list"]),
        "/run/pkg",
        &full_package(),
        HostPlatform::Unix,
        "/run/target/debug/deps:/usr/lib",
    );
    assert_eq!(
        command,
        TestCommand {
            program: "/run/target/bin-1".to_owned(),
            via_runner: false,
            args: strings(&["--list"]),
            cwd: "/run/pkg".to_owned(),
            env: pairs(&[
                ("NEXTEST", "1"),
                ("NEXTEST_EXECUTION_MODE", "process-per-test"),
                ("CARGO_MANIFEST_DIR", "/run/pkg"),
                ("NEXTEST_ORIGINAL_CARGO_MANIFEST_DIR", "/build/pkg"),
                ("CARGO_PKG_VERSION", "1.20.300-beta.1"),
                ("CARGO_PKG_VERSION_MAJOR", "1"),
                ("CARGO_PKG_VERSION_MINOR", "20"),
                ("CARGO_PKG_VERSION_PATCH", "300"),
                ("CARGO_PKG_VERSION_PRE", "beta.1"),
                ("CARGO_PKG_AUTHORS", "A <a@example.com>:B"),
                ("CARGO_PKG_NAME", "pkg"),
                ("CARGO_PKG_DESCRIPTION", "A package"),
                ("CARGO_PKG_HOMEPAGE", "https://example.com"),
                ("CARGO_PKG_LICENSE", "MIT"),
                ("CARGO_PKG_LICENSE_FILE", "LICENSE"),
                ("CARGO_PKG_REPOSITORY", "https://example.com/repo"),
                ("LD_LIBRARY_PATH", "/run/target/debug/deps:/usr/lib"),
            ]),
        }
    );
}

#[test]
fn what_a_package_lacks_is_set_to_nothing() {
    let command = make_test_expression(
        "bin".to_owned(),
        true,
        vec![],
        "/cwd",
        &bare_package(),
        HostPlatform::MacOs,
        "",
    );
    assert_eq!(command.env, bare_env("/cwd", "DYLD_FALLBACK_LIBRARY_PATH", ""));
    let on_windows =
        make_test_expression("bin".to_owned(), true, vec![], "/cwd", &bare_package(), HostPlatform::Windows, "c");
    assert_eq!(on_windows.env[16], ("PATH".to_owned(), "c".to_owned()));
}

#[test]
fn a_binary_lists_its_tests_in_terse_format() {
    let binary = artifact(BuildPlatform::Target);
    let (all, ignored) = binary.list_commands(HostPlatform::Unix, "/lib", &TargetRunner::empty());
    assert_eq!(all.program, "/run/target/bin-1");
    assert!(!all.via_runner);
    assert_eq!(all.args, strings(&["--list", "--format", "terse"]));
    assert_eq!(all.cwd, "/run/bare");
    assert_eq!(all.env, bare_env("/run/bare", "LD_LIBRARY_PATH", "/lib"));
    assert_eq!(ignored.program, "/run/target/bin-1");
    assert_eq!(ignored.args, strings(&["--list", "--format", "terse", "--ignored"]));
    assert_eq!(ignored.env, all.env);
    assert_eq!(all.describe(), "'/run/target/bin-1 --list --format terse'");
    assert_eq!(ignored.describe(), "'/run/target/bin-1 --list --format terse --ignored'");
}

#[test]
fn a_runner_takes_the_place_of_the_binary() {
    let runner = target_only_runner();
    let binary = artifact(BuildPlatform::Target);
    let (all, _) = binary.list_commands(HostPlatform::Unix, "/lib", &runner);
    assert_eq!(all.program, "qemu");
    assert!(all.via_runner);
    assert_eq!(
        all.args,
        strings(&["-L", "/sysroot", "/run/target/bin-1", "--list", "--format", "terse"])
    );
    assert_eq!(all.describe(), "'qemu -L /sysroot /run/target/bin-1 --list --format terse'");
    let wrapped = binary.list_command(true, HostPlatform::Unix, "/lib", runner.for_build_platform(BuildPlatform::Target));
    assert_eq!(
        wrapped.describe(),
        "'qemu -L /sysroot /run/target/bin-1 --list --format terse --ignored'"
    );
    assert_eq!(
        wrapped.args,
        strings(&["-L", "/sysroot", "/run/target/bin-1", "--list", "--format", "terse", "--ignored"])
    );
}

#[test]
fn a_platform_without_a_runner_runs_the_binary_itself() {
    let runner = target_only_runner();
    assert_eq!(runner.for_build_platform(BuildPlatform::Host), None);
    assert_eq!(
        runner.for_build_platform(BuildPlatform::Target).map(|r| r.binary()),
        Some("qemu")
    );
    assert_eq!(TargetRunner::empty().for_build_platform(BuildPlatform::Target), None);
    let binary = artifact(BuildPlatform::Host);
    let (all, _) = binary.list_commands(HostPlatform::Unix, "/lib", &runner);
    assert_eq!(all.program, "/run/target/bin-1");
    assert_eq!(all.args, strings(&["--list", "--format", "terse"]));
    let (program, prefix) = program_and_prefix(None, "/bin/t");
    assert_eq!(program, "/bin/t");
    assert!(prefix.is_empty());
}

#[test]
fn one_test_is_run_by_its_exact_name() {
    let list = TestList::new_with_outputs(
        vec![(artifact(BuildPlatform::Target), "m::runs: test\n".to_owned(), "m::waits: test\n".to_owned())],
        &RustBuildMeta::new("/run/target".to_owned()),
        &PathMapper::noop(),
        &TestFilterBuilder::any(RunIgnored::All),
        &HostEnv { platform: HostPlatform::Unix, dylib_path: vec!["/usr/lib".to_owned()] },
    )
    .expect("valid output");
    let tests = list.iter_tests();
    assert_eq!(tests.len(), 2);
    let runs = tests[0].make_expression(&list, &TargetRunner::empty());
    assert_eq!(runs.program, "/run/target/bin-1");
    assert_eq!(runs.args, strings(&["--exact", "m::runs", "--nocapture"]));
    assert_eq!(runs.cwd, "/run/bare");
    assert_eq!(runs.env, bare_env("/run/bare", "LD_LIBRARY_PATH", "/usr/lib"));
    let waits = tests[1].make_expression(&list, &target_only_runner());
    assert_eq!(waits.program, "qemu");
    assert!(waits.via_runner);
    assert!(!runs.via_runner);
    assert_eq!(
        waits.args,
        strings(&["-L", "/sysroot", "/run/target/bin-1", "--exact", "m::waits", "--nocapture", "--ignored"])
    );
}

#[test]
fn a_command_without_arguments_is_described_by_its_program() {
    let command =
        make_test_expression("prog".to_owned(), true, vec![], "/cwd", &bare_package(), HostPlatform::Unix, "");
    assert_eq!(command.describe(), "'prog'");
}

#[test]
fn an_artifact_can_be_copied() {
    let binary = artifact(BuildPlatform::Host);
    assert_eq!(binary.clone(), binary);
}

#[test]
fn numbers_are_written_in_decimal() {
    assert_eq!(decimal_string(0), "0");
    assert_eq!(decimal_string(7), "7");
    assert_eq!(decimal_string(10), "10");
    assert_eq!(decimal_string(1203), "1203");
    assert_eq!(decimal_string(u64::MAX), "18446744073709551615");
}

#[test]
fn strings_are_joined_with_a_separator_between_them() {
    assert_eq!(join_strings(&strings(&[]), ":"), "");
    assert_eq!(join_strings(&strings(&["a"]), ":"), "a");
    assert_eq!(join_strings(&strings(&["a", "", "b"]), ", "), "a, , b");
}
