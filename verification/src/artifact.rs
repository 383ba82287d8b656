//! Test binaries as the build leaves them: not run yet, so nothing is known
//! of the tests inside.

use crate::build_meta::RustBuildMeta;
use crate::command::command_prefix;
use crate::command::command_program;
use crate::command::list_args;
use crate::command::make_test_expression;
use crate::command::program_and_prefix;
use crate::command::runner_ref_view;
use crate::command::test_command;
use crate::command::PlatformRunner;
use crate::command::TargetRunner;
use crate::command::TestCommand;
use crate::dylib::HostPlatform;
use crate::errors::FromMessagesError;
use crate::metadata::BuildPlatform;
use crate::package::find_package;
use crate::package::lookup_package;
use crate::package::package_views;
use crate::package::PackageInfo;
use crate::package::PackageInfoView;
use crate::path_mapper::remap;
use crate::path_mapper::PathMapper;
use crate::path_mapper::PathMapperView;
use crate::text::views;
use vstd::prelude::*;
use vstd::string::StringExecFns;

verus! {

/// A test binary that a build has made.
#[derive(Debug, PartialEq, Eq)]
pub struct RustTestBinary {
    /// An identifier of the binary, unique within the build.
    pub id: String,
    /// The path of the binary, as it was at build time.
    pub path: String,
    /// The identifier of the package that the binary belongs to.
    pub package_id: String,
    /// The name of the binary within its package.
    pub name: String,
    /// The platform that the binary was built for.
    pub build_platform: BuildPlatform,
}

/// A test binary that a build has made, as plain values.
pub struct RustTestBinaryView {
    pub id: Seq<char>,
    pub path: Seq<char>,
    pub package_id: Seq<char>,
    pub name: Seq<char>,
    pub build_platform: BuildPlatform,
}

impl View for RustTestBinary {
    type V = RustTestBinaryView;

    open spec fn view(&self) -> RustTestBinaryView {
        RustTestBinaryView {
            id: self.id@,
            path: self.path@,
            package_id: self.package_id@,
            name: self.name@,
            build_platform: self.build_platform,
        }
    }
}

/// The test binaries of a build, with the metadata of the build.
#[derive(Debug, PartialEq, Eq)]
pub struct BinaryList {
    /// The metadata of the build.
    pub rust_build_meta: RustBuildMeta,
    /// The test binaries.
    pub rust_binaries: Vec<RustTestBinary>,
}

/// Binaries as plain values.
pub open spec fn binary_views(binaries: Seq<RustTestBinary>) -> Seq<RustTestBinaryView> {
    binaries.map_values(|b: RustTestBinary| b@)
}

/// A test binary, ready to be asked for its tests.
#[derive(Debug, PartialEq, Eq)]
pub struct RustTestArtifact {
    /// An identifier of the binary, unique within the build.
    pub binary_id: String,
    /// The package that the binary belongs to: its metadata goes into the
    /// environment of the tests.
    pub package: PackageInfo,
    /// The path of the binary.
    pub binary_path: String,
    /// The name of the binary within its package.
    pub binary_name: String,
    /// The directory that the tests of the binary are run in.
    pub cwd: String,
    /// The platform that the binary was built for.
    pub build_platform: BuildPlatform,
}

/// A test artifact as plain values.
pub struct RustTestArtifactView {
    pub binary_id: Seq<char>,
    pub package: PackageInfoView,
    pub binary_path: Seq<char>,
    pub binary_name: Seq<char>,
    pub cwd: Seq<char>,
    pub build_platform: BuildPlatform,
}

impl View for RustTestArtifact {
    type V = RustTestArtifactView;

    open spec fn view(&self) -> RustTestArtifactView {
        RustTestArtifactView {
            binary_id: self.binary_id@,
            package: self.package@,
            binary_path: self.binary_path@,
            binary_name: self.binary_name@,
            cwd: self.cwd@,
            build_platform: self.build_platform,
        }
    }
}

impl Clone for RustTestArtifact {
    fn clone(&self) -> (r: Self)
        ensures
            r@ == self@,
    {
        RustTestArtifact {
            binary_id: self.binary_id.clone(),
            package: self.package.clone(),
            binary_path: self.binary_path.clone(),
            binary_name: self.binary_name.clone(),
            cwd: self.cwd.clone(),
            build_platform: self.build_platform,
        }
    }
}

/// Artifacts as plain values.
pub open spec fn artifact_views(artifacts: Seq<RustTestArtifact>) -> Seq<RustTestArtifactView> {
    artifacts.map_values(|a: RustTestArtifact| a@)
}

/// Whether binaries of `platform` are asked for.
pub open spec fn platform_selected(filter: Option<BuildPlatform>, platform: BuildPlatform) -> bool {
    match filter {
        Some(wanted) => wanted == platform,
        None => true,
    }
}

/// The artifact of a binary of `package`: its path remapped as a binary's,
/// and for its working directory the remapped directory of the package's
/// manifest.
pub open spec fn artifact_of(
    binary: RustTestBinaryView,
    package: PackageInfoView,
    mapper: PathMapperView,
) -> RustTestArtifactView {
    RustTestArtifactView {
        binary_id: binary.id,
        package,
        binary_path: remap(mapper.target_dir, binary.path),
        binary_name: binary.name,
        cwd: remap(mapper.workspace, package.manifest_dir),
        build_platform: binary.build_platform,
    }
}

/// The artifacts of the binaries that are asked for, in order; or the
/// package identifier of the first of them whose package is not known.
pub open spec fn artifacts_of(
    packages: Seq<PackageInfoView>,
    binaries: Seq<RustTestBinaryView>,
    mapper: PathMapperView,
    filter: Option<BuildPlatform>,
) -> Result<Seq<RustTestArtifactView>, Seq<char>>
    decreases binaries.len(),
{
    if binaries.len() == 0 {
        Ok(Seq::empty())
    } else {
        let binary = binaries.last();
        match artifacts_of(packages, binaries.drop_last(), mapper, filter) {
            Err(id) => Err(id),
            Ok(before) => if !platform_selected(filter, binary.build_platform) {
                Ok(before)
            } else {
                match find_package(packages, binary.package_id) {
                    Some(package) => Ok(before.push(artifact_of(binary, package, mapper))),
                    None => Err(binary.package_id),
                }
            },
        }
    }
}

impl RustTestArtifact {
    /// Makes the test artifacts of the binaries of a build. Only binaries
    /// built for `platform_filter` are taken, where one is given. Each
    /// binary's package is looked up in `packages` by its identifier; the
    /// first binary whose package is not there fails the whole list. Paths
    /// are remapped by `path_mapper`.
    pub fn from_binary_list(
        packages: &Vec<PackageInfo>,
        binary_list: &BinaryList,
        path_mapper: &PathMapper,
        platform_filter: Option<BuildPlatform>,
    ) -> (r: Result<Vec<RustTestArtifact>, FromMessagesError>)
        ensures
            match r {
                Ok(artifacts) => artifacts_of(
                    package_views(packages@),
                    binary_views(binary_list.rust_binaries@),
                    path_mapper@,
                    platform_filter,
                ) == Ok::<Seq<RustTestArtifactView>, Seq<char>>(artifact_views(artifacts@)),
                Err(FromMessagesError::PackageGraph { package_id }) => artifacts_of(
                    package_views(packages@),
                    binary_views(binary_list.rust_binaries@),
                    path_mapper@,
                    platform_filter,
                ) == Err::<Seq<RustTestArtifactView>, Seq<char>>(package_id@),
            },
    {
        let ghost all = binary_views(binary_list.rust_binaries@);
        let ghost known = package_views(packages@);
        let mut binaries: Vec<RustTestArtifact> = Vec::new();
        let mut i: usize = 0;
        assert(all.take(0) == Seq::<RustTestBinaryView>::empty());
        assert(artifact_views(binaries@) == Seq::<RustTestArtifactView>::empty());
        while i < binary_list.rust_binaries.len()
            invariant
                i <= binary_list.rust_binaries.len(),
                all == binary_views(binary_list.rust_binaries@),
                known == package_views(packages@),
                artifacts_of(known, all.take(i as int), path_mapper@, platform_filter) == Ok::<
                    Seq<RustTestArtifactView>,
                    Seq<char>,
                >(artifact_views(binaries@)),
            decreases binary_list.rust_binaries.len() - i,
        {
            let binary = &binary_list.rust_binaries[i];
            proof {
                assert(all.take(i + 1).drop_last() == all.take(i as int));
                assert(all.take(i + 1).last() == binary@);
            }
            let selected = match platform_filter {
                Some(wanted) => wanted == binary.build_platform,
                None => true,
            };
            if selected {
                match lookup_package(packages, binary.package_id.as_str()) {
                    Some(package) => {
                        let binary_path = path_mapper.map_binary(binary.path.clone());
                        let cwd = path_mapper.map_cwd(package.manifest_dir.clone());
                        let ghost before = binaries@;
                        binaries.push(
                            RustTestArtifact {
                                binary_id: binary.id.clone(),
                                package: package.clone(),
                                binary_path,
                                binary_name: binary.name.clone(),
                                cwd,
                                build_platform: binary.build_platform,
                            },
                        );
                        assert(artifact_views(binaries@) =~= artifact_views(before).push(
                            artifact_of(binary@, package@, path_mapper@),
                        ));
                    },
                    None => {
                        proof {
                            lemma_artifacts_error(
                                known,
                                all,
                                path_mapper@,
                                platform_filter,
                                i + 1,
                            );
                        }
                        return Err(
                            FromMessagesError::PackageGraph {
                                package_id: binary.package_id.clone(),
                            },
                        );
                    },
                }
            }
            i = i + 1;
        }
        assert(all.take(i as int) == all);
        Ok(binaries)
    }

    /// The command that makes this binary list its tests, or only its
    /// ignored ones, through `runner` where there is one.
    pub fn list_command(
        &self,
        ignored: bool,
        platform: HostPlatform,
        dylib_path: &str,
        runner: Option<&PlatformRunner>,
    ) -> (cmd: TestCommand)
        ensures
            cmd@ == test_command(
                command_program(runner_ref_view(runner), self.binary_path@),
                runner is Some,
                command_prefix(runner_ref_view(runner), self.binary_path@) + list_args(ignored),
                self.cwd@,
                self.package@,
                platform,
                dylib_path@,
            ),
    {
        let (program, mut argv) = program_and_prefix(runner, self.binary_path.as_str());
        let ghost prefix = views(argv@);
        argv.push(String::from_str("--list"));
        argv.push(String::from_str("--format"));
        argv.push(String::from_str("terse"));
        if ignored {
            argv.push(String::from_str("--ignored"));
        }
        assert(views(argv@) =~= prefix + list_args(ignored));
        make_test_expression(
            program,
            runner.is_some(),
            argv,
            self.cwd.as_str(),
            &self.package,
            platform,
            dylib_path,
        )
    }

    /// The two commands that list the tests of this binary: first the one
    /// for all tests, then the one for the ignored tests only. Both go
    /// through the runner of the binary's platform, where there is one.
    pub fn list_commands(&self, platform: HostPlatform, dylib_path: &str, runner: &TargetRunner) -> (r:
        (TestCommand, TestCommand))
        ensures
            r.0@ == test_command(
                command_program(runner.runner_for(self.build_platform), self.binary_path@),
                runner.runner_for(self.build_platform) is Some,
                command_prefix(runner.runner_for(self.build_platform), self.binary_path@)
                    + list_args(false),
                self.cwd@,
                self.package@,
                platform,
                dylib_path@,
            ),
            r.1@ == test_command(
                command_program(runner.runner_for(self.build_platform), self.binary_path@),
                runner.runner_for(self.build_platform) is Some,
                command_prefix(runner.runner_for(self.build_platform), self.binary_path@)
                    + list_args(true),
                self.cwd@,
                self.package@,
                platform,
                dylib_path@,
            ),
    {
        let platform_runner = runner.for_build_platform(self.build_platform);
        let non_ignored = self.list_command(false, platform, dylib_path, platform_runner);
        let ignored = self.list_command(true, platform, dylib_path, platform_runner);
        (non_ignored, ignored)
    }
}

/// Once the package of a binary that is asked for is not known, the list
/// fails with that binary's package, however many binaries follow.
proof fn lemma_artifacts_error(
    packages: Seq<PackageInfoView>,
    binaries: Seq<RustTestBinaryView>,
    mapper: PathMapperView,
    filter: Option<BuildPlatform>,
    n: int,
)
    requires
        0 < n <= binaries.len(),
        artifacts_of(packages, binaries.take(n - 1), mapper, filter) is Ok,
        platform_selected(filter, binaries[n - 1].build_platform),
        find_package(packages, binaries[n - 1].package_id) is None,
    ensures
        artifacts_of(packages, binaries, mapper, filter) == Err::<
            Seq<RustTestArtifactView>,
            Seq<char>,
        >(binaries[n - 1].package_id),
    decreases binaries.len() - n,
{
    if n == binaries.len() {
        assert(binaries.take(n) == binaries);
        assert(binaries.drop_last() == binaries.take(n - 1));
    } else {
        let init = binaries.drop_last();
        assert(init.take(n - 1) == binaries.take(n - 1));
        assert(init[n - 1] == binaries[n - 1]);
        lemma_artifacts_error(packages, init, mapper, filter, n);
    }
}

} // verus!
