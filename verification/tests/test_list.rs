use camino::Utf8PathBuf;
use nextest_metadata::BuildPlatform as MetaPlatform;
use nextest_metadata::FilterMatch as MetaFilterMatch;
use nextest_metadata::MismatchReason as MetaReason;
use nextest_metadata::RustBuildMetaSummary;
use nextest_metadata::RustTestBinarySummary as MetaBinary;
use nextest_metadata::RustTestCaseSummary as MetaCase;
use nextest_metadata::RustTestSuiteSummary as MetaSuite;
use nextest_metadata::TestListSummary as MetaList;
use nextest_runner::artifact::RustTestArtifact;
use nextest_runner::build_meta::RustBuildMeta;
use nextest_runner::dylib::HostEnv;
use nextest_runner::dylib::HostPlatform;
use nextest_runner::errors::ParseTestListError;
use nextest_runner::filter::Partition;
use nextest_runner::filter::RunIgnored;
use nextest_runner::filter::TestFilterBuilder;
use nextest_runner::human::Styles;
use nextest_runner::human::TextStyle;
use nextest_runner::metadata::BuildPlatform;
use nextest_runner::metadata::FilterMatch;
use nextest_runner::metadata::MismatchReason;
use nextest_runner::metadata::RustTestCaseSummary;
use nextest_runner::package::PackageInfo;
use nextest_runner::package::PackageVersion;
use nextest_runner::path_mapper::PathMapper;
use nextest_runner::summary::TestListSummary;
use nextest_runner::test_list::TestList;

const PACKAGE_METADATA_ID: &str =
    "metadata-helper 0.1.0 (path+file:///Users/fakeuser/local/testcrates/metadata/metadata-helper)";

fn package_metadata() -> PackageInfo {
    PackageInfo {
        id: PACKAGE_METADATA_ID.to_owned(),
        name: "metadata-helper".to_owned(),
        version: PackageVersion {
            major: 0,
            minor: 1,
            patch: 0,
            pre: String::new(),
            full: "0.1.0".to_owned(),
        },
        authors: vec!["Fake User <fakeuser@example.com>".to_owned()],
        description: None,
        homepage: None,
        license: None,
        license_file: None,
        repository: None,
        manifest_dir: "/Users/fakeuser/local/testcrates/metadata/metadata-helper".to_owned(),
        is_proc_macro: false,
    }
}

fn fake_artifact(path: &str, id: &str) -> RustTestArtifact {
    RustTestArtifact {
        binary_path: path.to_owned(),
        cwd: "/fake/cwd".to_owned(),
        package: package_metadata(),
        binary_name: "fake-binary".to_owned(),
        binary_id: id.to_owned(),
        build_platform: BuildPlatform::Target,
    }
}

fn unix_env() -> HostEnv {
    HostEnv { platform: HostPlatform::Unix, dylib_path: vec![] }
}

fn case(ignored: bool, filter_match: FilterMatch) -> RustTestCaseSummary {
    RustTestCaseSummary { ignored, filter_match }
}

fn ignored_mismatch() -> FilterMatch {
    FilterMatch::Mismatch { reason: MismatchReason::Ignored }
}

fn list_of(outputs: Vec<(&str, &str, &str)>, filter: &TestFilterBuilder) -> TestList {
    let inputs = outputs
        .into_iter()
        .map(|(path, non_ignored, ignored)| {
            (fake_artifact(path, path), non_ignored.to_owned(), ignored.to_owned())
        })
        .collect();
    TestList::new_with_outputs(
        inputs,
        &RustBuildMeta::new("/fake".to_owned()),
        &PathMapper::noop(),
        filter,
        &unix_env(),
    )
    .expect("valid output")
}

fn to_metadata(summary: &TestListSummary) -> MetaList {
    let meta = &summary.rust_build_meta;
    let mut out = MetaList::new(RustBuildMetaSummary {
        target_directory: Utf8PathBuf::from(meta.target_directory.clone()),
        base_output_directories: meta
            .base_output_directories
            .iter()
            .map(|dir| Utf8PathBuf::from(dir.clone()))
            .collect(),
        linked_paths: meta.linked_paths.iter().map(|dir| Utf8PathBuf::from(dir.clone())).collect(),
    });
    out.test_count = summary.test_count;
    for i in 0..summary.rust_suites.len() {
        let suite = summary.rust_suites.value_at(i);
        let mut testcases = std::collections::BTreeMap::new();
        for j in 0..suite.testcases.len() {
            let info = suite.testcases.value_at(j);
            testcases.insert(
                suite.testcases.key_at(j).clone(),
                MetaCase {
                    ignored: info.ignored,
                    filter_match: match info.filter_match {
                        FilterMatch::Matches => MetaFilterMatch::Matches,
                        FilterMatch::Mismatch { reason } => MetaFilterMatch::Mismatch {
                            reason: match reason {
                                MismatchReason::Ignored => MetaReason::Ignored,
                                MismatchReason::String => MetaReason::String,
                                MismatchReason::Partition => MetaReason::Partition,
                            },
                        },
                    },
                },
            );
        }
        out.rust_suites.insert(
            summary.rust_suites.key_at(i).clone(),
            MetaSuite {
                package_name: suite.package_name.clone(),
                binary: MetaBinary {
                    binary_id: suite.binary.binary_id.clone(),
                    binary_name: suite.binary.binary_name.clone(),
                    package_id: suite.binary.package_id.clone(),
                    binary_path: Utf8PathBuf::from(suite.binary.binary_path.clone()),
                    build_platform: match suite.binary.build_platform {
                        BuildPlatform::Target => MetaPlatform::Target,
                        BuildPlatform::Host => MetaPlatform::Host,
                    },
                },
                cwd: Utf8PathBuf::from(suite.cwd.clone()),
                testcases,
            },
        );
    }
    out
}

#[test]
fn test_parse_test_list() {
    // Lines ending in ': benchmark' (output by the default Rust bencher) should be skipped.
    let non_ignored_output = "tests::foo::test_bar: test\n\
                              tests::baz::test_quux: test\n\
                              benches::should_be_skipped: benchmark\n";
    let ignored_output = "benches::ignored_should_be_skipped: benchmark\n\
                          tests::ignored::test_bar: test\n\
                          tests::baz::test_ignored: test\n";

    let test_filter = TestFilterBuilder::any(RunIgnored::Default);
    let fake_cwd = "/fake/cwd".to_owned();
    let fake_binary_name = "fake-binary".to_owned();
    let fake_binary_id = "fake-package::fake-binary".to_owned();
    let test_binary = RustTestArtifact {
        binary_path: "/fake/binary".to_owned(),
        cwd: fake_cwd.clone(),
        package: package_metadata(),
        binary_name: fake_binary_name.clone(),
        binary_id: fake_binary_id.clone(),
        build_platform: BuildPlatform::Target,
    };
    let rust_build_meta = RustBuildMeta::new("/fake".to_owned());
    let test_list = TestList::new_with_outputs(
        vec![(test_binary, non_ignored_output.to_owned(), ignored_output.to_owned())],
        &rust_build_meta,
        &PathMapper::noop(),
        &test_filter,
        &unix_env(),
    )
    .expect("valid output");

    let suites = test_list.iter();
    assert_eq!(suites.len(), 1);
    let (path, suite) = suites[0];
    assert_eq!(path, "/fake/binary");
    assert_eq!(suite.cwd, fake_cwd);
    assert_eq!(suite.build_platform, BuildPlatform::Target);
    assert_eq!(suite.package, package_metadata());
    assert_eq!(suite.binary_name, fake_binary_name);
    assert_eq!(suite.binary_id, fake_binary_id);
    assert_eq!(suite.testcases.len(), 4);
    assert_eq!(
        suite.testcases.get("tests::foo::test_bar"),
        Some(&case(false, FilterMatch::Matches))
    );
    assert_eq!(
        suite.testcases.get("tests::baz::test_quux"),
        Some(&case(false, FilterMatch::Matches))
    );
    assert_eq!(
        suite.testcases.get("tests::ignored::test_bar"),
        Some(&case(true, ignored_mismatch()))
    );
    assert_eq!(
        suite.testcases.get("tests::baz::test_ignored"),
        Some(&case(true, ignored_mismatch()))
    );

    // Check that the expected outputs are valid.
    let expected_human = "fake-package::fake-binary:\n    \
                          tests::baz::test_ignored (skipped)\n    \
                          tests::baz::test_quux\n    \
                          tests::foo::test_bar\n    \
                          tests::ignored::test_bar (skipped)\n";
    let expected_human_verbose = "fake-package::fake-binary:\n  \
                                  bin: /fake/binary\n  \
                                  cwd: /fake/cwd\n  \
                                  build platform: target\n    \
                                  tests::baz::test_ignored (skipped)\n    \
                                  tests::baz::test_quux\n    \
                                  tests::foo::test_bar\n    \
                                  tests::ignored::test_bar (skipped)\n";
    let expected_json_pretty = r#"{
  "rust-build-meta": {
    "target-directory": "/fake",
    "base-output-directories": [],
    "linked-paths": []
  },
  "test-count": 4,
  "rust-suites": {
    "fake-package::fake-binary": {
      "package-name": "metadata-helper",
      "binary-id": "fake-package::fake-binary",
      "binary-name": "fake-binary",
      "package-id": "metadata-helper 0.1.0 (path+file:///Users/fakeuser/local/testcrates/metadata/metadata-helper)",
      "binary-path": "/fake/binary",
      "build-platform": "target",
      "cwd": "/fake/cwd",
      "testcases": {
        "tests::baz::test_ignored": {
          "ignored": true,
          "filter-match": {
            "status": "mismatch",
            "reason": "ignored"
          }
        },
        "tests::baz::test_quux": {
          "ignored": false,
          "filter-match": {
            "status": "matches"
          }
        },
        "tests::foo::test_bar": {
          "ignored": false,
          "filter-match": {
            "status": "matches"
          }
        },
        "tests::ignored::test_bar": {
          "ignored": true,
          "filter-match": {
            "status": "mismatch",
            "reason": "ignored"
          }
        }
      }
    }
  }
}"#;

    assert_eq!(test_list.write_human(false, &Styles::default()), expected_human);
    assert_eq!(test_list.write_human(true, &Styles::default()), expected_human_verbose);
    let json = serde_json::to_string_pretty(&to_metadata(&test_list.to_summary()))
        .expect("json-pretty succeeded");
    println!("{}", json);
    assert_eq!(json, expected_json_pretty);
}

#[test]
fn three_tests_of_two_listings_are_classified() {
    let list = list_of(
        vec![(
            "/fake/binary",
            "tests::a: test\ntests::b: test\nbench::x: benchmark\n",
            "tests::c: test\n",
        )],
        &TestFilterBuilder::any(RunIgnored::Default),
    );
    let suite = list.get("/fake/binary").expect("the binary is listed");
    assert_eq!(suite.testcases.key_list(), vec!["tests::a", "tests::b", "tests::c"]);
    assert_eq!(suite.testcases.get("tests::a"), Some(&case(false, FilterMatch::Matches)));
    assert_eq!(suite.testcases.get("tests::b"), Some(&case(false, FilterMatch::Matches)));
    assert_eq!(suite.testcases.get("tests::c"), Some(&case(true, ignored_mismatch())));
    assert_eq!(suite.testcases.get("bench::x"), None);
    assert_eq!(list.test_count(), 3);
    assert_eq!(list.skip_count(), 1);
    assert_eq!(list.run_count(), 2);
}

#[test]
fn a_garbage_line_fails_the_list() {
    let output = "tests::a: test\ngarbage line\n";
    let error = TestList::new_with_outputs(
        vec![(fake_artifact("/fake/binary", "id"), output.to_owned(), String::new())],
        &RustBuildMeta::new("/fake".to_owned()),
        &PathMapper::noop(),
        &TestFilterBuilder::any(RunIgnored::Default),
        &unix_env(),
    )
    .expect_err("malformed output");
    assert_eq!(
        error,
        ParseTestListError::ParseLine {
            line: "garbage line".to_owned(),
            full_output: output.to_owned(),
        }
    );
}

#[test]
fn a_garbage_line_in_the_ignored_listing_fails_the_list() {
    let error = TestList::new_with_outputs(
        vec![
            (fake_artifact("/fake/one", "one"), "a: test\n".to_owned(), String::new()),
            (fake_artifact("/fake/two", "two"), "b: test\n".to_owned(), "bad".to_owned()),
            (fake_artifact("/fake/three", "three"), "worse".to_owned(), String::new()),
        ],
        &RustBuildMeta::new("/fake".to_owned()),
        &PathMapper::noop(),
        &TestFilterBuilder::any(RunIgnored::Default),
        &unix_env(),
    )
    .expect_err("malformed output");
    assert_eq!(
        error,
        ParseTestListError::ParseLine { line: "bad".to_owned(), full_output: "bad".to_owned() }
    );
}

#[test]
fn a_name_in_both_listings_is_ignored() {
    let list = list_of(
        vec![("/fake/binary", "both: test\nonly: test\n", "both: test\n")],
        &TestFilterBuilder::any(RunIgnored::All),
    );
    let suite = list.get("/fake/binary").expect("the binary is listed");
    assert_eq!(suite.testcases.len(), 2);
    assert_eq!(suite.testcases.get("both"), Some(&case(true, FilterMatch::Matches)));
    assert_eq!(suite.testcases.get("only"), Some(&case(false, FilterMatch::Matches)));
}

#[test]
fn run_and_skip_counts_make_up_the_test_count() {
    let filters = vec![
        TestFilterBuilder::any(RunIgnored::Default),
        TestFilterBuilder::any(RunIgnored::IgnoredOnly),
        TestFilterBuilder::any(RunIgnored::All),
        TestFilterBuilder::new(RunIgnored::All, None, vec!["a".to_owned()]),
        TestFilterBuilder::new(RunIgnored::All, Partition::new(2, 3), vec![]),
    ];
    let expected_skips = vec![2, 4, 0, 4, 5];
    for (filter, skips) in filters.iter().zip(expected_skips) {
        let list = list_of(
            vec![
                ("/fake/one", "a: test\nb: test\nc: test\n", "d: test\n"),
                ("/fake/two", "x::a: test\n", "x::z: test\n"),
            ],
            filter,
        );
        assert_eq!(list.test_count(), 6);
        assert_eq!(list.skip_count(), skips);
        assert_eq!(list.run_count() + list.skip_count(), list.test_count());
        assert_eq!(list.binary_count(), 2);
    }
}

#[test]
fn each_listing_gets_a_filter_of_its_own() {
    // Shard 1 of 2 takes the first, third, ... test of each listing.
    let filter = TestFilterBuilder::new(RunIgnored::All, Partition::new(1, 2), vec![]);
    let list = list_of(vec![("/fake/binary", "a: test\nb: test\nc: test\n", "d: test\n")], &filter);
    let suite = list.get("/fake/binary").expect("the binary is listed");
    let partition = FilterMatch::Mismatch { reason: MismatchReason::Partition };
    assert_eq!(suite.testcases.get("a"), Some(&case(false, FilterMatch::Matches)));
    assert_eq!(suite.testcases.get("b"), Some(&case(false, partition)));
    assert_eq!(suite.testcases.get("c"), Some(&case(false, FilterMatch::Matches)));
    assert_eq!(suite.testcases.get("d"), Some(&case(true, FilterMatch::Matches)));
}

#[test]
fn binaries_stand_in_the_order_of_their_paths() {
    let list = list_of(
        vec![("/fake/b", "t: test\n", ""), ("/fake/a", "u: test\nv: test\n", "")],
        &TestFilterBuilder::any(RunIgnored::Default),
    );
    let paths: Vec<&str> = list.iter().iter().map(|(path, _)| *path).collect();
    assert_eq!(paths, vec!["/fake/a", "/fake/b"]);
    let tests: Vec<(&str, &str)> =
        list.iter_tests().iter().map(|test| (test.binary, test.name)).collect();
    assert_eq!(tests, vec![("/fake/a", "u"), ("/fake/a", "v"), ("/fake/b", "t")]);
    assert_eq!(list.get("/fake/c"), None);
}

#[test]
fn of_two_binaries_at_one_path_the_later_stays() {
    let list = list_of(
        vec![("/fake/a", "first: test\n", ""), ("/fake/a", "second: test\n", "")],
        &TestFilterBuilder::any(RunIgnored::Default),
    );
    assert_eq!(list.binary_count(), 1);
    assert_eq!(list.test_count(), 1);
    let suite = list.get("/fake/a").expect("the binary is listed");
    assert_eq!(suite.testcases.key_list(), vec!["second"]);
}

#[test]
fn a_list_can_be_copied() {
    let list = list_of(
        vec![("/fake/b", "t: test\n", "u: test\n"), ("/fake/a", "v: test\n", "")],
        &TestFilterBuilder::any(RunIgnored::Default),
    );
    let copy = list.clone();
    assert_eq!(copy.test_count(), 3);
    assert_eq!(copy.skip_count(), 1);
    assert_eq!(copy.run_count(), 2);
    assert_eq!(copy.binary_count(), 2);
    assert_eq!(copy.updated_dylib_path(), list.updated_dylib_path());
    assert_eq!(copy.rust_build_meta(), list.rust_build_meta());
    assert_eq!(copy.iter(), list.iter());
    assert_eq!(copy.write_human(true, &Styles::default()), list.write_human(true, &Styles::default()));
    let suite = list.get("/fake/b").expect("the binary is listed");
    assert_eq!(&suite.clone(), suite);
}

#[test]
fn an_empty_list_has_no_tests() {
    let list = TestList::empty(HostPlatform::Unix);
    assert_eq!(list.test_count(), 0);
    assert_eq!(list.skip_count(), 0);
    assert_eq!(list.run_count(), 0);
    assert_eq!(list.binary_count(), 0);
    assert_eq!(list.updated_dylib_path(), "");
    assert_eq!(list.write_human(true, &Styles::default()), "");
    assert!(list.iter_tests().is_empty());
    assert_eq!(list.get("/fake/binary"), None);
    assert_eq!(list.rust_build_meta(), &RustBuildMeta::new(String::new()));
}

#[test]
fn the_summary_read_back_gives_counts_and_classifications() {
    let list = list_of(
        vec![
            ("/fake/one", "a: test\nb: test\n", "c: test\n"),
            ("/fake/two", "x: test\n", ""),
        ],
        &TestFilterBuilder::any(RunIgnored::Default),
    );
    let json = serde_json::to_string(&to_metadata(&list.to_summary())).expect("json succeeded");
    let read = MetaList::parse_json(&json).expect("the summary can be read back");
    assert_eq!(read.test_count, list.test_count());
    assert_eq!(read.rust_suites.len(), list.binary_count());
    for (path, suite) in list.iter() {
        let read_suite = &read.rust_suites[&suite.binary_id];
        assert_eq!(read_suite.binary.binary_path.as_str(), path);
        assert_eq!(read_suite.testcases.len(), suite.testcases.len());
        for i in 0..suite.testcases.len() {
            let read_case = &read_suite.testcases[suite.testcases.key_at(i)];
            let info = suite.testcases.value_at(i);
            assert_eq!(read_case.ignored, info.ignored);
            assert_eq!(read_case.filter_match.is_match(), info.filter_match.is_match());
        }
    }
}

#[test]
fn the_summary_counts_a_procedural_macro_as_built_for_the_host() {
    let mut artifact = fake_artifact("/fake/binary", "macro-id");
    artifact.package.is_proc_macro = true;
    let list = TestList::new_with_outputs(
        vec![(artifact, "a: test\n".to_owned(), String::new())],
        &RustBuildMeta::new("/fake".to_owned()),
        &PathMapper::noop(),
        &TestFilterBuilder::any(RunIgnored::Default),
        &unix_env(),
    )
    .expect("valid output");
    let summary = list.to_summary();
    assert_eq!(summary.test_count, 1);
    let suite = summary.rust_suites.get("macro-id").expect("the suite is summarised");
    assert_eq!(suite.binary.build_platform, BuildPlatform::Host);
    assert_eq!(suite.binary.binary_path, "/fake/binary");
    assert_eq!(suite.package_name, "metadata-helper");
    assert_eq!(suite.binary.package_id, PACKAGE_METADATA_ID);
    assert_eq!(suite.testcases.key_list(), vec!["a"]);
}

#[test]
fn human_text_marks_pieces_with_their_styles() {
    let list = list_of(
        vec![("/fake/binary", "m::n::t: test\nplain: test\n", "")],
        &TestFilterBuilder::new(RunIgnored::Default, None, vec!["m".to_owned()]),
    );
    let style = |tag: &str| TextStyle { prefix: format!("<{}>", tag), suffix: format!("</{}>", tag) };
    let styles =
        Styles { binary_id: style("b"), test_name: style("t"), module: style("m"), field: style("f") };
    assert_eq!(
        list.write_human(true, &styles),
        "<b>/fake/binary</b>:\n  \
         <f>bin:</f> /fake/binary\n  \
         <f>cwd:</f> /fake/cwd\n  \
         <f>build platform:</f> target\n    \
         <m>m::n</m><m>::</m><t>t</t>\n    \
         <t>plain</t> (skipped)\n"
    );
}

#[test]
fn human_text_of_a_binary_without_tests_says_so() {
    let list = list_of(
        vec![("/fake/binary", "b: benchmark\n", "")],
        &TestFilterBuilder::any(RunIgnored::Default),
    );
    assert_eq!(list.write_human(false, &Styles::default()), "/fake/binary:\n    (no tests)\n");
}

#[test]
fn human_text_does_not_indent_an_empty_line() {
    // A test without a name that will run has an empty line of its own.
    let list = list_of(
        vec![("/fake/binary", ": test\nt: test\n", "")],
        &TestFilterBuilder::any(RunIgnored::Default),
    );
    assert_eq!(list.write_human(false, &Styles::default()), "/fake/binary:\n\n    t\n");
}

#[test]
fn the_search_path_of_the_list_puts_build_directories_first() {
    let mut meta = RustBuildMeta::new("/build/target".to_owned());
    meta.base_output_directories = vec!["debug".to_owned()];
    meta.linked_paths = vec!["debug/build/lib/out".to_owned()];
    let mapper =
        PathMapper::new("/build", Some("/run".to_owned()), "/build/target", Some("/run/target".to_owned()));
    let env = HostEnv { platform: HostPlatform::Unix, dylib_path: vec!["/usr/lib".to_owned()] };
    let list = TestList::new_with_outputs(
        vec![],
        &meta,
        &mapper,
        &TestFilterBuilder::any(RunIgnored::Default),
        &env,
    )
    .expect("valid output");
    assert_eq!(list.rust_build_meta().target_directory, "/run/target");
    assert_eq!(
        list.updated_dylib_path(),
        "/run/target/debug/build/lib/out:/run/target/debug/deps:/run/target/debug:/usr/lib"
    );
    assert_eq!(list.platform(), HostPlatform::Unix);
}

#[test]
fn a_directory_that_cannot_be_joined_fails_the_list() {
    let mut meta = RustBuildMeta::new("/build/target".to_owned());
    meta.base_output_directories = vec!["debug".to_owned()];
    let env = HostEnv { platform: HostPlatform::Unix, dylib_path: vec!["/usr:lib".to_owned()] };
    let error = TestList::new_with_outputs(
        vec![],
        &meta,
        &PathMapper::noop(),
        &TestFilterBuilder::any(RunIgnored::Default),
        &env,
    )
    .expect_err("the path cannot be joined");
    assert_eq!(
        error,
        ParseTestListError::DylibJoinPaths { paths: vec!["/usr:lib".to_owned()] }
    );
    assert_eq!(error.message(), None);
}
