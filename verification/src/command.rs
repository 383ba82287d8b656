//! The process that lists the tests of a binary or runs one of them: its
//! program, arguments, working directory and environment. Nothing here
//! starts a process; a `TestCommand` says what is to be started.

use crate::dylib::dylib_envvar_name;
use crate::dylib::dylib_path_envvar;
use crate::dylib::HostPlatform;
use crate::metadata::BuildPlatform;
use crate::package::PackageInfo;
use crate::package::PackageInfoView;
use crate::text::clone_strings;
use crate::text::decimal;
use crate::text::decimal_string;
use crate::text::views;
use vstd::prelude::*;
use vstd::string::StringExecFns;

verus! {

/// A program that runs the binaries of one platform in place of the
/// operating system: an emulator, or a shim that runs them elsewhere.
#[derive(Debug, PartialEq, Eq)]
pub struct PlatformRunner {
    runner_binary: String,
    args: Vec<String>,
}

/// A runner as plain values.
pub struct PlatformRunnerView {
    /// The program of the runner.
    pub binary: Seq<char>,
    /// The arguments that the runner is always given first.
    pub args: Seq<Seq<char>>,
}

impl View for PlatformRunner {
    type V = PlatformRunnerView;

    closed spec fn view(&self) -> PlatformRunnerView {
        PlatformRunnerView { binary: self.runner_binary@, args: views(self.args@) }
    }
}

impl PlatformRunner {
    /// The runner `runner_binary`, always given `args` first.
    pub fn new(runner_binary: String, args: Vec<String>) -> (r: Self)
        ensures
            r@.binary == runner_binary@,
            r@.args == views(args@),
    {
        PlatformRunner { runner_binary, args }
    }

    /// The program of the runner.
    pub fn binary(&self) -> (r: &str)
        ensures
            r@ == self@.binary,
    {
        self.runner_binary.as_str()
    }

    /// The arguments that the runner is always given first.
    pub fn args(&self) -> (r: &Vec<String>)
        ensures
            views(r@) == self@.args,
    {
        &self.args
    }
}

/// The runners of the two platforms of a build, where there are any.
#[derive(Debug, PartialEq, Eq)]
pub struct TargetRunner {
    host: Option<PlatformRunner>,
    target: Option<PlatformRunner>,
}

/// An optional runner as plain values.
pub open spec fn runner_view(runner: Option<PlatformRunner>) -> Option<PlatformRunnerView> {
    match runner {
        Some(r) => Some(r@),
        None => None,
    }
}

/// An optional borrowed runner as plain values.
pub open spec fn runner_ref_view(runner: Option<&PlatformRunner>) -> Option<PlatformRunnerView> {
    match runner {
        Some(r) => Some(r@),
        None => None,
    }
}

impl TargetRunner {
    /// The runner of binaries built for the host.
    pub closed spec fn host_spec(&self) -> Option<PlatformRunnerView> {
        runner_view(self.host)
    }

    /// The runner of binaries built for the target.
    pub closed spec fn target_spec(&self) -> Option<PlatformRunnerView> {
        runner_view(self.target)
    }

    /// The runner for binaries of `platform`, if there is one.
    pub open spec fn runner_for(&self, platform: BuildPlatform) -> Option<PlatformRunnerView> {
        match platform {
            BuildPlatform::Host => self.host_spec(),
            BuildPlatform::Target => self.target_spec(),
        }
    }

    /// The given runners.
    pub fn new(host: Option<PlatformRunner>, target: Option<PlatformRunner>) -> (r: Self)
        ensures
            r.host_spec() == runner_view(host),
            r.target_spec() == runner_view(target),
    {
        TargetRunner { host, target }
    }

    /// No runner for either platform: binaries are run as they are.
    pub fn empty() -> (r: Self)
        ensures
            r.host_spec() is None,
            r.target_spec() is None,
    {
        TargetRunner { host: None, target: None }
    }

    /// The runner for binaries of `build_platform`, if there is one.
    pub fn for_build_platform(&self, build_platform: BuildPlatform) -> (r: Option<&PlatformRunner>)
        ensures
            runner_ref_view(r) == self.runner_for(build_platform),
    {
        match build_platform {
            BuildPlatform::Host => self.host.as_ref(),
            BuildPlatform::Target => self.target.as_ref(),
        }
    }
}

/// What is to be started: a program with its arguments, in a working
/// directory, with variables added to the environment.
#[derive(Debug, PartialEq, Eq)]
pub struct TestCommand {
    /// The program.
    pub program: String,
    /// Whether the program is a runner, found as the platform finds
    /// programs by name; otherwise it is the test binary itself, given by
    /// its path.
    pub via_runner: bool,
    /// Its arguments, in order.
    pub args: Vec<String>,
    /// The directory to start it in.
    pub cwd: String,
    /// The variables to set, each with its value.
    pub env: Vec<(String, String)>,
}

/// A command as plain values.
pub struct TestCommandView {
    pub program: Seq<char>,
    pub via_runner: bool,
    pub args: Seq<Seq<char>>,
    pub cwd: Seq<char>,
    pub env: Seq<(Seq<char>, Seq<char>)>,
}

/// Variables and their values as plain values.
pub open spec fn env_views(env: Seq<(String, String)>) -> Seq<(Seq<char>, Seq<char>)> {
    env.map_values(|e: (String, String)| (e.0@, e.1@))
}

impl View for TestCommand {
    type V = TestCommandView;

    open spec fn view(&self) -> TestCommandView {
        TestCommandView {
            program: self.program@,
            via_runner: self.via_runner,
            args: views(self.args@),
            cwd: self.cwd@,
            env: env_views(self.env@),
        }
    }
}

/// `parts` with `separator` between each two of them.
pub open spec fn joined(parts: Seq<Seq<char>>, separator: Seq<char>) -> Seq<char>
    decreases parts.len(),
{
    if parts.len() == 0 {
        Seq::empty()
    } else if parts.len() == 1 {
        parts[0]
    } else {
        joined(parts.drop_last(), separator) + separator + parts.last()
    }
}

/// The text of an optional value, empty where there is none.
pub open spec fn or_empty(value: Option<Seq<char>>) -> Seq<char> {
    match value {
        Some(text) => text,
        None => Seq::empty(),
    }
}

/// The variables that every test process is given, in the order in which
/// they are set: that the process runs under this engine and how, then what
/// the build tool itself would tell a test of its package, then the library
/// search path.
pub open spec fn test_env(
    cwd: Seq<char>,
    package: PackageInfoView,
    platform: HostPlatform,
    dylib_path: Seq<char>,
) -> Seq<(Seq<char>, Seq<char>)> {
    seq![
        ("NEXTEST"@, "1"@),
        ("NEXTEST_EXECUTION_MODE"@, "process-per-test"@),
        ("CARGO_MANIFEST_DIR"@, cwd),
        ("NEXTEST_ORIGINAL_CARGO_MANIFEST_DIR"@, package.manifest_dir),
        ("CARGO_PKG_VERSION"@, package.version.full),
        ("CARGO_PKG_VERSION_MAJOR"@, decimal(package.version.major)),
        ("CARGO_PKG_VERSION_MINOR"@, decimal(package.version.minor)),
        ("CARGO_PKG_VERSION_PATCH"@, decimal(package.version.patch)),
        ("CARGO_PKG_VERSION_PRE"@, package.version.pre),
        ("CARGO_PKG_AUTHORS"@, joined(package.authors, ":"@)),
        ("CARGO_PKG_NAME"@, package.name),
        ("CARGO_PKG_DESCRIPTION"@, or_empty(package.description)),
        ("CARGO_PKG_HOMEPAGE"@, or_empty(package.homepage)),
        ("CARGO_PKG_LICENSE"@, or_empty(package.license)),
        ("CARGO_PKG_LICENSE_FILE"@, or_empty(package.license_file)),
        ("CARGO_PKG_REPOSITORY"@, or_empty(package.repository)),
        (dylib_envvar_name(platform), dylib_path),
    ]
}

/// The command that runs `program` with `args` in `cwd` as a test of
/// `package`.
pub open spec fn test_command(
    program: Seq<char>,
    via_runner: bool,
    args: Seq<Seq<char>>,
    cwd: Seq<char>,
    package: PackageInfoView,
    platform: HostPlatform,
    dylib_path: Seq<char>,
) -> TestCommandView {
    TestCommandView {
        program,
        via_runner,
        args,
        cwd,
        env: test_env(cwd, package, platform, dylib_path),
    }
}

/// The program to start for a binary: the binary itself, or its runner.
pub open spec fn command_program(runner: Option<PlatformRunnerView>, binary_path: Seq<char>)
    -> Seq<char> {
    match runner {
        Some(r) => r.binary,
        None => binary_path,
    }
}

/// The arguments in front of those for the binary: none, or those of the
/// runner and then the binary.
pub open spec fn command_prefix(runner: Option<PlatformRunnerView>, binary_path: Seq<char>)
    -> Seq<Seq<char>> {
    match runner {
        Some(r) => r.args.push(binary_path),
        None => Seq::empty(),
    }
}

/// The arguments that make a binary list its tests, or only its ignored
/// ones.
pub open spec fn list_args(ignored: bool) -> Seq<Seq<char>> {
    if ignored {
        seq!["--list"@, "--format"@, "terse"@, "--ignored"@]
    } else {
        seq!["--list"@, "--format"@, "terse"@]
    }
}

/// The arguments that make a binary run the one test `name`, which is
/// ignored or not.
pub open spec fn run_args(name: Seq<char>, ignored: bool) -> Seq<Seq<char>> {
    if ignored {
        seq!["--exact"@, name, "--nocapture"@, "--ignored"@]
    } else {
        seq!["--exact"@, name, "--nocapture"@]
    }
}

/// `parts` with `separator` between each two of them.
pub fn join_strings(parts: &Vec<String>, separator: &str) -> (out: String)
    ensures
        out@ == joined(views(parts@), separator@),
{
    let ghost all = views(parts@);
    let mut out = String::new();
    let mut i: usize = 0;
    while i < parts.len()
        invariant
            i <= parts.len(),
            all == views(parts@),
            out@ == joined(all.take(i as int), separator@),
        decreases parts.len() - i,
    {
        let ghost before = out@;
        if i > 0 {
            out.append(separator);
        }
        out.append(parts[i].as_str());
        proof {
            let upto = all.take(i + 1);
            assert(upto.drop_last() == all.take(i as int));
            assert(upto.last() == parts@[i as int]@);
            if i == 0 {
                assert(out@ =~= parts@[i as int]@);
            }
        }
        i = i + 1;
    }
    assert(all.take(i as int) == all);
    out
}

/// How a command is written out where its failure is reported: the
/// program and its arguments as they are run, with blanks between them,
/// in quotes.
pub open spec fn command_text(cmd: TestCommandView) -> Seq<char> {
    "'"@ + joined(seq![cmd.program] + cmd.args, " "@) + "'"@
}

impl TestCommand {
    /// How the command is written out where its failure is reported.
    pub fn describe(&self) -> (text: String)
        ensures
            text@ == command_text(self@),
    {
        let mut words: Vec<String> = Vec::new();
        words.push(self.program.clone());
        let mut i: usize = 0;
        while i < self.args.len()
            invariant
                i <= self.args.len(),
                views(words@) == seq![self.program@] + views(self.args@).take(i as int),
            decreases self.args.len() - i,
        {
            let ghost before = words@;
            words.push(self.args[i].clone());
            assert(views(words@) =~= views(before).push(self.args@[i as int]@));
            assert(views(self.args@).take(i + 1) =~= views(self.args@).take(i as int).push(
                self.args@[i as int]@,
            ));
            i = i + 1;
        }
        assert(views(self.args@).take(i as int) == views(self.args@));
        let mut text = String::from_str("'");
        text.append(join_strings(&words, " ").as_str());
        text.append("'");
        text
    }
}

/// The text of an optional value, empty where there is none.
fn text_or_empty(value: &Option<String>) -> (out: String)
    ensures
        out@ == or_empty(crate::text::opt_view(*value)),
{
    match value {
        Some(text) => text.clone(),
        None => String::new(),
    }
}

/// One variable with its value.
fn var(name: &str, value: String) -> (r: (String, String))
    ensures
        r.0@ == name@,
        r.1@ == value@,
{
    (String::from_str(name), value)
}

/// The program and the arguments in front of those for the binary itself:
/// with a runner, the runner's program, its own arguments and the path of
/// the binary; without one, the binary and nothing.
pub fn program_and_prefix(runner: Option<&PlatformRunner>, binary_path: &str) -> (r: (
    String,
    Vec<String>,
))
    ensures
        r.0@ == command_program(runner_ref_view(runner), binary_path@),
        views(r.1@) == command_prefix(runner_ref_view(runner), binary_path@),
{
    match runner {
        Some(runner) => {
            let mut args = clone_strings(runner.args());
            let ghost before = args@;
            args.push(String::from_str(binary_path));
            assert(views(args@) =~= views(before).push(binary_path@));
            (String::from_str(runner.binary()), args)
        },
        None => {
            let args: Vec<String> = Vec::new();
            assert(views(args@) =~= Seq::<Seq<char>>::empty());
            (String::from_str(binary_path), args)
        },
    }
}

/// The command that runs `program`, a runner or the binary itself as
/// `via_runner` says, with `args` in `cwd` as a test of `package`, with the
/// environment that the build tool itself would give
/// it, and with `dylib_path` as the library search path of `platform`.
pub fn make_test_expression(
    program: String,
    via_runner: bool,
    args: Vec<String>,
    cwd: &str,
    package: &PackageInfo,
    platform: HostPlatform,
    dylib_path: &str,
) -> (cmd: TestCommand)
    ensures
        cmd@ == test_command(
            program@,
            via_runner,
            views(args@),
            cwd@,
            package@,
            platform,
            dylib_path@,
        ),
{
    let mut env: Vec<(String, String)> = Vec::new();
    env.push(var("NEXTEST", String::from_str("1")));
    env.push(var("NEXTEST_EXECUTION_MODE", String::from_str("process-per-test")));
    env.push(var("CARGO_MANIFEST_DIR", String::from_str(cwd)));
    env.push(var("NEXTEST_ORIGINAL_CARGO_MANIFEST_DIR", package.manifest_dir.clone()));
    env.push(var("CARGO_PKG_VERSION", package.version.full.clone()));
    env.push(var("CARGO_PKG_VERSION_MAJOR", decimal_string(package.version.major)));
    env.push(var("CARGO_PKG_VERSION_MINOR", decimal_string(package.version.minor)));
    env.push(var("CARGO_PKG_VERSION_PATCH", decimal_string(package.version.patch)));
    env.push(var("CARGO_PKG_VERSION_PRE", package.version.pre.clone()));
    env.push(var("CARGO_PKG_AUTHORS", join_strings(&package.authors, ":")));
    env.push(var("CARGO_PKG_NAME", package.name.clone()));
    env.push(var("CARGO_PKG_DESCRIPTION", text_or_empty(&package.description)));
    env.push(var("CARGO_PKG_HOMEPAGE", text_or_empty(&package.homepage)));
    env.push(var("CARGO_PKG_LICENSE", text_or_empty(&package.license)));
    env.push(var("CARGO_PKG_LICENSE_FILE", text_or_empty(&package.license_file)));
    env.push(var("CARGO_PKG_REPOSITORY", text_or_empty(&package.repository)));
    env.push(var(dylib_path_envvar(platform), String::from_str(dylib_path)));
    assert(env_views(env@) =~= test_env(cwd@, package@, platform, dylib_path@));
    TestCommand { program, via_runner, args, cwd: String::from_str(cwd), env }
}

} // verus!
