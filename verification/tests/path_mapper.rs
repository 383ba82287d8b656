use nextest_runner::artifact::BinaryList;
use nextest_runner::artifact::RustTestArtifact;
use nextest_runner::artifact::RustTestBinary;
use nextest_runner::build_meta::RustBuildMeta;
use nextest_runner::errors::FromMessagesError;
use nextest_runner::metadata::BuildPlatform;
use nextest_runner::package::lookup_package;
use nextest_runner::package::PackageInfo;
use nextest_runner::package::PackageVersion;
use nextest_runner::path_mapper::rebase;
use nextest_runner::path_mapper::PathMapper;

fn package(id: &str, manifest_dir: &str) -> PackageInfo {
    PackageInfo {
        id: id.to_owned(),
        name: id.to_owned(),
        version: PackageVersion {
            major: 1,
            minor: 2,
            patch: 3,
            pre: String::new(),
            full: "1.2.3".to_owned(),
        },
        authors: vec![],
        description: None,
        homepage: None,
        license: None,
        license_file: None,
        repository: None,
        manifest_dir: manifest_dir.to_owned(),
        is_proc_macro: false,
    }
}

fn binary(id: &str, path: &str, package_id: &str, build_platform: BuildPlatform) -> RustTestBinary {
    RustTestBinary {
        id: id.to_owned(),
        path: path.to_owned(),
        package_id: package_id.to_owned(),
        name: id.to_owned(),
        build_platform,
    }
}

fn two_pair_mapper() -> PathMapper {
    PathMapper::new("/build", Some("/run".to_owned()), "/build/target", Some("/out".to_owned()))
}

#[test]
fn a_cwd_in_the_workspace_is_remapped() {
    let mapper = two_pair_mapper();
    assert_eq!(mapper.map_cwd("/build/pkg".to_owned()), "/run/pkg");
    assert_eq!(mapper.map_cwd("/other/pkg".to_owned()), "/other/pkg");
}

#[test]
fn a_binary_in_the_target_directory_is_remapped() {
    let mapper = two_pair_mapper();
    assert_eq!(mapper.map_binary("/build/target/debug/deps/t-1".to_owned()), "/out/debug/deps/t-1");
    assert_eq!(mapper.map_binary("/build/pkg/t-1".to_owned()), "/build/pkg/t-1");
    assert_eq!(mapper.new_target_dir(), Some("/out"));
}

#[test]
fn a_prefix_matches_by_whole_components_only() {
    let mapper = two_pair_mapper();
    assert_eq!(mapper.map_cwd("/builder/pkg".to_owned()), "/builder/pkg");
    assert_eq!(mapper.map_cwd("/build".to_owned()), "/run/");
}

#[test]
fn remapping_a_path_outside_the_prefix_twice_changes_nothing() {
    let mapper = two_pair_mapper();
    let once = mapper.map_cwd("/elsewhere/pkg".to_owned());
    let twice = mapper.map_cwd(once.clone());
    assert_eq!(once, "/elsewhere/pkg");
    assert_eq!(twice, once);
}

#[test]
fn a_noop_mapper_leaves_paths_alone() {
    let mapper = PathMapper::noop();
    assert_eq!(mapper.map_cwd("/build/pkg".to_owned()), "/build/pkg");
    assert_eq!(mapper.map_binary("/build/target/t".to_owned()), "/build/target/t");
    assert_eq!(mapper.new_target_dir(), None);
}

#[test]
fn the_default_mapper_leaves_paths_alone() {
    let mapper = PathMapper::default();
    assert_eq!(mapper.map_cwd("/build/pkg".to_owned()), "/build/pkg");
    assert_eq!(mapper.map_binary("/build/target/t".to_owned()), "/build/target/t");
    assert_eq!(mapper.new_target_dir(), None);
}

#[test]
fn a_mapper_with_one_pair_maps_only_that_kind_of_path() {
    let mapper = PathMapper::new("/build", None, "/build/target", Some("/out".to_owned()));
    assert_eq!(mapper.map_cwd("/build/pkg".to_owned()), "/build/pkg");
    assert_eq!(mapper.map_binary("/build/target/t".to_owned()), "/out/t");
}

#[test]
fn rebase_moves_what_was_stripped_and_keeps_the_rest() {
    assert_eq!(rebase("/a/b".to_owned(), Some("b".to_owned()), "/c"), "/c/b");
    assert_eq!(rebase("/a/b".to_owned(), None, "/c"), "/a/b");
}

#[test]
fn build_metadata_follows_the_new_target_directory() {
    let mut meta = RustBuildMeta::new("/build/target".to_owned());
    meta.base_output_directories = vec!["debug".to_owned(), "x/release".to_owned()];
    meta.linked_paths = vec!["debug/build/a/out".to_owned()];
    assert_eq!(
        meta.dylib_paths(),
        vec![
            "/build/target/debug/build/a/out",
            "/build/target/debug/deps",
            "/build/target/debug",
            "/build/target/x/release/deps",
            "/build/target/x/release",
        ]
    );
    let mapped = meta.map_paths(&two_pair_mapper());
    assert_eq!(mapped.target_directory, "/out");
    assert_eq!(mapped.base_output_directories, meta.base_output_directories);
    assert_eq!(mapped.linked_paths, meta.linked_paths);
    assert_eq!(meta.map_paths(&PathMapper::noop()), meta);
    assert_eq!(meta.clone(), meta);
}

#[test]
fn artifacts_are_made_of_the_binaries_asked_for() {
    let packages = vec![package("p", "/build/p"), package("q", "/elsewhere/q")];
    let list = BinaryList {
        rust_build_meta: RustBuildMeta::new("/build/target".to_owned()),
        rust_binaries: vec![
            binary("p::t", "/build/target/debug/deps/t-1", "p", BuildPlatform::Target),
            binary("q::m", "/build/target/debug/deps/m-2", "q", BuildPlatform::Host),
        ],
    };
    let all = RustTestArtifact::from_binary_list(&packages, &list, &two_pair_mapper(), None)
        .expect("the packages are known");
    assert_eq!(
        all,
        vec![
            RustTestArtifact {
                binary_id: "p::t".to_owned(),
                package: package("p", "/build/p"),
                binary_path: "/out/debug/deps/t-1".to_owned(),
                binary_name: "p::t".to_owned(),
                cwd: "/run/p".to_owned(),
                build_platform: BuildPlatform::Target,
            },
            RustTestArtifact {
                binary_id: "q::m".to_owned(),
                package: package("q", "/elsewhere/q"),
                binary_path: "/out/debug/deps/m-2".to_owned(),
                binary_name: "q::m".to_owned(),
                cwd: "/elsewhere/q".to_owned(),
                build_platform: BuildPlatform::Host,
            },
        ]
    );
    let host = RustTestArtifact::from_binary_list(
        &packages,
        &list,
        &PathMapper::noop(),
        Some(BuildPlatform::Host),
    )
    .expect("the packages are known");
    assert_eq!(host.len(), 1);
    assert_eq!(host[0].binary_id, "q::m");
    assert_eq!(host[0].binary_path, "/build/target/debug/deps/m-2");
}

#[test]
fn a_binary_of_an_unknown_package_fails_the_artifacts() {
    let packages = vec![package("p", "/build/p")];
    let list = BinaryList {
        rust_build_meta: RustBuildMeta::new("/build/target".to_owned()),
        rust_binaries: vec![
            binary("p::t", "/t", "p", BuildPlatform::Target),
            binary("r::t", "/r", "r", BuildPlatform::Host),
            binary("s::t", "/s", "s", BuildPlatform::Host),
        ],
    };
    let error = RustTestArtifact::from_binary_list(&packages, &list, &PathMapper::noop(), None)
        .expect_err("a package is missing");
    assert_eq!(error, FromMessagesError::PackageGraph { package_id: "r".to_owned() });
    // A binary that is not asked for is not looked up.
    let target = RustTestArtifact::from_binary_list(
        &packages,
        &list,
        &PathMapper::noop(),
        Some(BuildPlatform::Target),
    )
    .expect("the one package needed is known");
    assert_eq!(target.len(), 1);
}

#[test]
fn a_package_is_looked_up_by_its_identifier() {
    let packages = vec![package("p", "/one"), package("q", "/two"), package("p", "/three")];
    assert_eq!(lookup_package(&packages, "p").map(|p| p.manifest_dir.as_str()), Some("/one"));
    assert_eq!(lookup_package(&packages, "q").map(|p| p.manifest_dir.as_str()), Some("/two"));
    assert_eq!(lookup_package(&packages, "r"), None);
    assert_eq!(packages[0].clone(), packages[0]);
}
