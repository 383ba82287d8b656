//! The list of all tests of a build: the suites of its binaries by the path
//! of the binary, with the counts of tests to run and to skip.
//!
//! A list is made in one piece and not changed afterwards. If one binary's
//! listing is malformed, no list is made.

use crate::artifact::RustTestArtifact;
use crate::build_meta::mapped_meta;
use crate::build_meta::RustBuildMeta;
use crate::build_meta::RustBuildMetaView;
use crate::command::command_prefix;
use crate::command::command_program;
use crate::command::make_test_expression;
use crate::command::program_and_prefix;
use crate::command::run_args;
use crate::command::test_command;
use crate::command::TargetRunner;
use crate::command::TestCommand;
use crate::dylib::create_dylib_path;
use crate::dylib::joined_paths;
use crate::dylib::unencodable;
use crate::dylib::updated_dylib_dirs;
use crate::dylib::HostEnv;
use crate::dylib::HostPlatform;
use crate::errors::ParseTestListError;
use crate::filter::TestFilterBuilder;
use crate::metadata::RustTestCaseSummary;
use crate::name_map::strictly_sorted;
use crate::name_map::NameMap;
use crate::path_mapper::PathMapper;
use crate::suite::count_skipped;
use crate::suite::last_index;
use crate::suite::lemma_count_skipped_bound;
use crate::suite::listing_error;
use crate::suite::suite_matches;
use crate::suite::RustTestSuite;
use crate::suite::RustTestSuiteView;
use crate::text::name_lt;
use crate::text::views;
use vstd::prelude::*;
use vstd::string::StringExecFns;

verus! {

/// A binary with the outputs of its two listings: that of all tests, then
/// that of the ignored tests.
pub type ListedBinary = (RustTestArtifact, String, String);

/// The paths of the binaries, in the order given.
pub open spec fn listed_paths(inputs: Seq<ListedBinary>) -> Seq<Seq<char>> {
    inputs.map_values(|b: ListedBinary| b.0.binary_path@)
}

/// The first malformed line among the listings of the binaries, in the
/// order given, with the output that it stands in.
pub open spec fn first_listing_error(inputs: Seq<ListedBinary>) -> Option<(Seq<char>, Seq<char>)>
    decreases inputs.len(),
{
    if inputs.len() == 0 {
        None
    } else {
        match listing_error(inputs[0].1@, inputs[0].2@) {
            Some(e) => Some(e),
            None => first_listing_error(inputs.drop_first()),
        }
    }
}

/// Binaries without malformed lines in front do not change which malformed
/// line is the first.
pub proof fn lemma_first_listing_error_after(a: Seq<ListedBinary>, b: Seq<ListedBinary>)
    requires
        first_listing_error(a) is None,
    ensures
        first_listing_error(a + b) == first_listing_error(b),
    decreases a.len(),
{
    if a.len() == 0 {
        assert(a + b == b);
    } else {
        assert((a + b).drop_first() == a.drop_first() + b);
        assert((a + b)[0] == a[0]);
        lemma_first_listing_error_after(a.drop_first(), b);
    }
}

/// The number of tests in the first `n` of `suites`.
pub open spec fn total_tests(suites: Seq<RustTestSuiteView>, n: nat) -> nat
    decreases n,
{
    if n == 0 {
        0
    } else {
        total_tests(suites, (n - 1) as nat) + suites[n - 1].names.len()
    }
}

/// The number of tests in the first `n` of `suites` that do not match the
/// filter.
pub open spec fn total_skipped(suites: Seq<RustTestSuiteView>, n: nat) -> nat
    decreases n,
{
    if n == 0 {
        0
    } else {
        total_skipped(suites, (n - 1) as nat) + count_skipped(suites[n - 1].cases)
    }
}

/// No more tests are skipped than there are, over all suites: the tests to
/// run and the tests to skip make up the tests.
pub proof fn lemma_total_skipped_bound(suites: Seq<RustTestSuiteView>, n: nat)
    requires
        n <= suites.len(),
        forall|i: int| 0 <= i < n ==> (#[trigger] suites[i]).cases.len() == suites[i].names.len(),
    ensures
        total_skipped(suites, n) <= total_tests(suites, n),
    decreases n,
{
    if n > 0 {
        lemma_total_skipped_bound(suites, (n - 1) as nat);
        lemma_count_skipped_bound(suites[n - 1].cases);
    }
}

/// More suites do not hold fewer tests.
pub proof fn lemma_total_tests_grows(suites: Seq<RustTestSuiteView>, i: nat, n: nat)
    requires
        i <= n,
    ensures
        total_tests(suites, i) <= total_tests(suites, n),
    decreases n,
{
    if i < n {
        lemma_total_tests_grows(suites, i, (n - 1) as nat);
    }
}

/// Suites as plain values.
pub open spec fn suite_views(suites: Seq<RustTestSuite>) -> Seq<RustTestSuiteView> {
    suites.map_values(|s: RustTestSuite| s@)
}

/// The tests of all binaries of a build.
#[derive(Debug)]
pub struct TestList {
    test_count: usize,
    rust_build_meta: RustBuildMeta,
    rust_suites: NameMap<RustTestSuite>,
    updated_dylib_path: String,
    platform: HostPlatform,
    skip_count: usize,
}

/// A list of tests as plain values.
pub struct TestListView {
    /// The metadata of the build, with paths as they are now.
    pub rust_build_meta: RustBuildMetaView,
    /// The paths of the binaries, in order.
    pub paths: Seq<Seq<char>>,
    /// The suites of the binaries, each at the index of its path.
    pub suites: Seq<RustTestSuiteView>,
    /// The library search path that tests are run with.
    pub updated_dylib_path: Seq<char>,
    /// The kind of platform that the tests run on.
    pub platform: HostPlatform,
}

impl View for TestList {
    type V = TestListView;

    closed spec fn view(&self) -> TestListView {
        TestListView {
            rust_build_meta: self.rust_build_meta@,
            paths: self.rust_suites.keys(),
            suites: suite_views(self.rust_suites.values()),
            updated_dylib_path: self.updated_dylib_path@,
            platform: self.platform,
        }
    }
}

/// One test with the binary that holds it.
#[derive(Clone, Copy, Debug, PartialEq, Eq)]
pub struct TestInstance<'a> {
    /// The name of the test.
    pub name: &'a str,
    /// The path of the binary.
    pub binary: &'a str,
    /// The suite of the binary.
    pub bin_info: &'a RustTestSuite,
    /// What is known of the test.
    pub test_info: &'a RustTestCaseSummary,
}

/// One test with the binary that holds it, as plain values.
pub struct TestInstanceView {
    pub name: Seq<char>,
    pub binary: Seq<char>,
    pub bin_info: RustTestSuiteView,
    pub test_info: RustTestCaseSummary,
}

impl<'a> View for TestInstance<'a> {
    type V = TestInstanceView;

    open spec fn view(&self) -> TestInstanceView {
        TestInstanceView {
            name: self.name@,
            binary: self.binary@,
            bin_info: self.bin_info@,
            test_info: *self.test_info,
        }
    }
}

/// Test instances as plain values.
pub open spec fn instance_views(instances: Seq<TestInstance<'_>>) -> Seq<TestInstanceView> {
    instances.map_values(|t: TestInstance<'_>| t@)
}

/// The tests of the suite at `path`, in the order of their names.
pub open spec fn suite_instances(path: Seq<char>, suite: RustTestSuiteView) -> Seq<
    TestInstanceView,
> {
    Seq::new(
        suite.names.len(),
        |j: int|
            TestInstanceView {
                name: suite.names[j],
                binary: path,
                bin_info: suite,
                test_info: suite.cases[j],
            },
    )
}

/// The tests of the first `n` suites, suite by suite.
pub open spec fn all_instances(paths: Seq<Seq<char>>, suites: Seq<RustTestSuiteView>, n: nat)
    -> Seq<TestInstanceView>
    decreases n,
{
    if n == 0 {
        Seq::empty()
    } else {
        all_instances(paths, suites, (n - 1) as nat) + suite_instances(
            paths[n - 1],
            suites[n - 1],
        )
    }
}

/// There are as many test instances as tests.
pub proof fn lemma_all_instances_len(
    paths: Seq<Seq<char>>,
    suites: Seq<RustTestSuiteView>,
    n: nat,
)
    ensures
        all_instances(paths, suites, n).len() == total_tests(suites, n),
    decreases n,
{
    if n > 0 {
        lemma_all_instances_len(paths, suites, (n - 1) as nat);
    }
}

/// The tests of all of `suites`: binary by binary in the order of their
/// paths, and in each binary in the order of their names.
fn instances_of<'a>(suites: &'a NameMap<RustTestSuite>) -> (out: Vec<TestInstance<'a>>)
    ensures
        instance_views(out@) == all_instances(
            suites.keys(),
            suite_views(suites.values()),
            suites.keys().len(),
        ),
{
    let ghost paths = suites.keys();
    let ghost all = suite_views(suites.values());
    let mut out: Vec<TestInstance<'a>> = Vec::new();
    let n = suites.len();
    let mut i: usize = 0;
    assert(instance_views(out@) =~= Seq::<TestInstanceView>::empty());
    while i < n
        invariant
            i <= n,
            n == suites.keys().len(),
            n == suites.values().len(),
            paths == suites.keys(),
            all == suite_views(suites.values()),
            instance_views(out@) == all_instances(paths, all, i as nat),
        decreases n - i,
    {
        let path = suites.key_at(i).as_str();
        let suite = suites.value_at(i);
        assert(suite@ == all[i as int]);
        let m = suite.testcases.len();
        let ghost done = instance_views(out@);
        let ghost these = suite_instances(path@, suite@);
        let mut j: usize = 0;
        while j < m
            invariant
                j <= m,
                m == suite.testcases.keys().len(),
                m == suite@.names.len(),
                these == suite_instances(path@, suite@),
                these.len() == m,
                instance_views(out@) == done + these.take(j as int),
            decreases m - j,
        {
            let ghost before = out@;
            out.push(
                TestInstance::new(
                    suite.testcases.key_at(j).as_str(),
                    path,
                    suite,
                    suite.testcases.value_at(j),
                ),
            );
            assert(instance_views(out@) =~= instance_views(before).push(these[j as int]));
            assert(these.take(j + 1) =~= these.take(j as int).push(these[j as int]));
            j = j + 1;
        }
        assert(these.take(m as int) == these);
        i = i + 1;
    }
    out
}

impl<'a> TestInstance<'a> {
    /// The test `name` of the binary at `binary`, whose suite is
    /// `bin_info`.
    pub fn new(
        name: &'a str,
        binary: &'a str,
        bin_info: &'a RustTestSuite,
        test_info: &'a RustTestCaseSummary,
    ) -> (t: Self)
        ensures
            t@ == (TestInstanceView {
                name: name@,
                binary: binary@,
                bin_info: bin_info@,
                test_info: *test_info,
            }),
    {
        TestInstance { name, binary, bin_info, test_info }
    }

    /// The command that runs this one test: the binary, or the runner of
    /// its platform with the binary as an argument, is told to run exactly
    /// this test without capturing its output, and to run it though
    /// ignored if it is.
    pub fn make_expression(&self, test_list: &TestList, target_runner: &TargetRunner) -> (cmd:
        TestCommand)
        ensures
            cmd@ == test_command(
                command_program(
                    target_runner.runner_for(self@.bin_info.build_platform),
                    self@.binary,
                ),
                target_runner.runner_for(self@.bin_info.build_platform) is Some,
                command_prefix(
                    target_runner.runner_for(self@.bin_info.build_platform),
                    self@.binary,
                ) + run_args(self@.name, self@.test_info.ignored),
                self@.bin_info.cwd,
                self@.bin_info.package,
                test_list@.platform,
                test_list@.updated_dylib_path,
            ),
    {
        let platform_runner = target_runner.for_build_platform(self.bin_info.build_platform);
        let (program, mut args) = program_and_prefix(platform_runner, self.binary);
        let ghost prefix = views(args@);
        args.push(String::from_str("--exact"));
        args.push(String::from_str(self.name));
        args.push(String::from_str("--nocapture"));
        if self.test_info.ignored {
            args.push(String::from_str("--ignored"));
        }
        assert(views(args@) =~= prefix + run_args(self@.name, self@.test_info.ignored));
        make_test_expression(
            program,
            platform_runner.is_some(),
            args,
            self.bin_info.cwd.as_str(),
            &self.bin_info.package,
            test_list.platform,
            test_list.updated_dylib_path(),
        )
    }
}

impl Clone for TestList {
    fn clone(&self) -> (r: Self)
        ensures
            r@ == self@,
            r.suites_agree(),
    {
        proof {
            use_type_invariant(self);
        }
        let ghost keys = self.rust_suites.keys();
        let ghost all = suite_views(self.rust_suites.values());
        let mut suites: NameMap<RustTestSuite> = NameMap::new();
        let n = self.rust_suites.len();
        let mut i: usize = 0;
        assert(suite_views(suites.values()) =~= all.take(0));
        assert(suites.keys() =~= keys.take(0));
        while i < n
            invariant
                i <= n,
                n == self.rust_suites.keys().len(),
                n == self.rust_suites.values().len(),
                keys == self.rust_suites.keys(),
                all == suite_views(self.rust_suites.values()),
                strictly_sorted(keys),
                suites.keys() == keys.take(i as int),
                suite_views(suites.values()) == all.take(i as int),
            decreases n - i,
        {
            let key = self.rust_suites.key_at(i).clone();
            let suite = self.rust_suites.value_at(i).clone();
            proof {
                if i > 0 {
                    assert(keys.take(i as int).last() == keys[i - 1]);
                    assert(name_lt(keys[i - 1], keys[i as int]));
                }
            }
            let ghost before = suites.values();
            suites.push_last(key, suite);
            assert(suites.keys() =~= keys.take(i + 1));
            assert(suite_views(suites.values()) =~= suite_views(before).push(all[i as int]));
            assert(all.take(i + 1) =~= all.take(i as int).push(all[i as int]));
            i = i + 1;
        }
        assert(keys.take(n as int) == keys);
        assert(all.take(n as int) == all);
        let r = TestList {
            test_count: self.test_count,
            rust_build_meta: self.rust_build_meta.clone(),
            rust_suites: suites,
            updated_dylib_path: self.updated_dylib_path.clone(),
            platform: self.platform,
            skip_count: self.skip_count,
        };
        proof {
            r.lemma_agree();
        }
        r
    }
}

impl TestList {
    #[verifier::type_invariant]
    spec fn counts_agree(&self) -> bool {
        &&& self.test_count == total_tests(
            suite_views(self.rust_suites.values()),
            self.rust_suites.values().len(),
        )
        &&& self.skip_count == total_skipped(
            suite_views(self.rust_suites.values()),
            self.rust_suites.values().len(),
        )
    }

    /// The suites by the path of their binary.
    pub closed spec fn suite_map(&self) -> Map<Seq<char>, RustTestSuite> {
        self.rust_suites.as_map()
    }

    /// Whether the suites by path are the suites of the view: the paths of
    /// the view are the paths that have a suite, and the suite of each is
    /// the suite at its index.
    pub open spec fn suites_agree(&self) -> bool {
        &&& self@.paths.len() == self@.suites.len()
        &&& strictly_sorted(self@.paths)
        &&& forall|p: Seq<char>| self@.paths.contains(p) <==> self.suite_map().contains_key(p)
        &&& forall|i: int|
            0 <= i < self@.paths.len() ==> self.suite_map()[#[trigger] self@.paths[i]]@
                == self@.suites[i]
    }

    /// The number of tests in all binaries.
    pub open spec fn test_count_spec(&self) -> nat {
        total_tests(self@.suites, self@.suites.len())
    }

    /// The number of tests that do not match the filter.
    pub open spec fn skip_count_spec(&self) -> nat {
        total_skipped(self@.suites, self@.suites.len())
    }

    /// Makes the list of the tests of `test_bin_outputs`, each a binary
    /// with the outputs of its two listings. Of two binaries at one path
    /// the later one stays. The first malformed line fails the list; so
    /// does a library search path that cannot be made.
    pub fn new_with_outputs(
        test_bin_outputs: Vec<ListedBinary>,
        rust_build_meta: &RustBuildMeta,
        path_mapper: &PathMapper,
        filter: &TestFilterBuilder,
        env: &HostEnv,
    ) -> (r: Result<TestList, ParseTestListError>)
        ensures
            match r {
                Ok(list) => {
                    &&& first_listing_error(test_bin_outputs@) is None
                    &&& list@.rust_build_meta == mapped_meta(rust_build_meta@, path_mapper@)
                    &&& joined_paths(
                        updated_dylib_dirs(list@.rust_build_meta, views(env.dylib_path@)),
                        env.platform,
                    ) == Some(list@.updated_dylib_path)
                    &&& list@.platform == env.platform
                    &&& list.suites_agree()
                    &&& forall|path: Seq<char>| #[trigger]
                        list.suite_map().contains_key(path) <==> listed_paths(
                            test_bin_outputs@,
                        ).contains(path)
                    &&& forall|path: Seq<char>|
                        listed_paths(test_bin_outputs@).contains(path) ==> {
                            let i = last_index(listed_paths(test_bin_outputs@), path);
                            suite_matches(
                                #[trigger] list.suite_map()[path],
                                test_bin_outputs@[i].0@,
                                filter@,
                                test_bin_outputs@[i].1@,
                                test_bin_outputs@[i].2@,
                            )
                        }
                },
                Err(ParseTestListError::ParseLine { line, full_output }) => first_listing_error(
                    test_bin_outputs@,
                ) == Some((line@, full_output@)),
                Err(ParseTestListError::DylibJoinPaths { paths }) => {
                    &&& first_listing_error(test_bin_outputs@) is None
                    &&& joined_paths(
                        updated_dylib_dirs(
                            mapped_meta(rust_build_meta@, path_mapper@),
                            views(env.dylib_path@),
                        ),
                        env.platform,
                    ) is None
                    &&& views(paths@) == unencodable(
                        updated_dylib_dirs(
                            mapped_meta(rust_build_meta@, path_mapper@),
                            views(env.dylib_path@),
                        ),
                        env.platform,
                    )
                    &&& paths@.len() > 0
                },
            },
    {
        let ghost inputs = test_bin_outputs@;
        let ghost paths = listed_paths(inputs);
        let mut suites: NameMap<RustTestSuite> = NameMap::new();
        assert(inputs.take(0) == Seq::<ListedBinary>::empty());
        assert(paths.take(0) == Seq::<Seq<char>>::empty());
        for item in it: test_bin_outputs
            invariant
                it.seq() == inputs,
                paths == listed_paths(inputs),
                first_listing_error(inputs.take(it.index())) is None,
                forall|path: Seq<char>| #[trigger]
                    suites.as_map().contains_key(path) <==> paths.take(it.index()).contains(path),
                forall|path: Seq<char>|
                    paths.take(it.index()).contains(path) ==> {
                        let i = last_index(paths.take(it.index()), path);
                        suite_matches(
                            #[trigger] suites.as_map()[path],
                            inputs[i].0@,
                            filter@,
                            inputs[i].1@,
                            inputs[i].2@,
                        )
                    },
        {
            let ghost k = it.index();
            let ghost before = suites.as_map();
            proof {
                assert(item == inputs[k]);
                assert(inputs.take(k + 1) == inputs.take(k) + seq![inputs[k]]);
                assert(inputs.skip(k) == seq![inputs[k]] + inputs.skip(k + 1));
                assert(inputs == inputs.take(k) + inputs.skip(k));
                assert(seq![inputs[k]].drop_first() == Seq::<ListedBinary>::empty());
                assert((seq![inputs[k]] + inputs.skip(k + 1)).drop_first() == inputs.skip(k + 1));
                lemma_first_listing_error_after(inputs.take(k), seq![inputs[k]]);
                lemma_first_listing_error_after(inputs.take(k), inputs.skip(k));
                assert(paths.take(k + 1).drop_last() == paths.take(k));
                assert(paths.take(k + 1).last() == inputs[k].0.binary_path@);
            }
            let (test_binary, non_ignored, ignored) = item;
            match RustTestSuite::process_output(
                test_binary,
                filter,
                non_ignored.as_str(),
                ignored.as_str(),
            ) {
                Ok((path, suite)) => {
                    suites.insert(path, suite);
                    proof {
                        let upto = paths.take(k + 1);
                        let init = paths.take(k);
                        assert(first_listing_error(seq![inputs[k]].drop_first()) is None);
                        assert(first_listing_error(seq![inputs[k]]) is None);
                        assert forall|p: Seq<char>| upto.contains(p) <==> (init.contains(p) || p
                            == upto.last()) by {
                            if upto.contains(p) {
                                let i = upto.index_of(p);
                                if i < k {
                                    assert(init[i] == p);
                                }
                            }
                            if init.contains(p) {
                                let i = init.index_of(p);
                                assert(upto[i] == p);
                            }
                            assert(upto[k] == upto.last());
                        }
                        assert forall|p: Seq<char>| upto.contains(p) implies {
                            let i = last_index(upto, p);
                            suite_matches(
                                #[trigger] suites.as_map()[p],
                                inputs[i].0@,
                                filter@,
                                inputs[i].1@,
                                inputs[i].2@,
                            )
                        } by {
                            if p != upto.last() {
                                assert(suites.as_map()[p] == before[p]);
                            }
                        }
                    }
                },
                Err(e) => {
                    return Err(e);
                },
            }
        }
        proof {
            assert(inputs.take(inputs.len() as int) == inputs);
            assert(paths.take(paths.len() as int) == paths);
            assert(paths.len() == inputs.len());
        }
        let rust_build_meta = rust_build_meta.map_paths(path_mapper);
        let updated_dylib_path = match create_dylib_path(&rust_build_meta, env) {
            Ok(path) => path,
            Err(e) => {
                return Err(e);
            },
        };
        Ok(TestList::assemble(suites, rust_build_meta, updated_dylib_path, env.platform))
    }

    /// The list that holds `suites`, with its counts.
    fn assemble(
        suites: NameMap<RustTestSuite>,
        rust_build_meta: RustBuildMeta,
        updated_dylib_path: String,
        platform: HostPlatform,
    ) -> (list: TestList)
        ensures
            list.suite_map() == suites.as_map(),
            list@.paths == suites.keys(),
            list@.suites == suite_views(suites.values()),
            list@.rust_build_meta == rust_build_meta@,
            list@.updated_dylib_path == updated_dylib_path@,
            list@.platform == platform,
            list.suites_agree(),
    {
        let ghost all = suite_views(suites.values());
        let n = suites.len();
        proof {
            suites.lemma_lengths();
            assert forall|k: int| 0 <= k < suites.keys().len() implies suites.as_map()[#[trigger] suites.keys()[k]]@
                == all[k] by {
                suites.lemma_map_at(k);
            }
        }
        let test_count = instances_of(&suites).len();
        proof {
            suites.lemma_lengths();
            lemma_all_instances_len(suites.keys(), all, n as nat);
            assert forall|k: int| 0 <= k < n implies (#[trigger] all[k]).cases.len()
                == all[k].names.len() by {
                suites.values()[k].testcases.lemma_lengths();
            }
        }
        let mut skip_count: usize = 0;
        let mut i: usize = 0;
        while i < n
            invariant
                i <= n,
                n == suites.keys().len(),
                n == suites.values().len(),
                all == suite_views(suites.values()),
                test_count == total_tests(all, n as nat),
                forall|k: int|
                    0 <= k < n ==> (#[trigger] all[k]).cases.len() == all[k].names.len(),
                skip_count == total_skipped(all, i as nat),
            decreases n - i,
        {
            let suite = suites.value_at(i);
            proof {
                assert(suite@ == all[i as int]);
                lemma_total_skipped_bound(all, (i + 1) as nat);
                lemma_total_tests_grows(all, (i + 1) as nat, n as nat);
            }
            skip_count = skip_count + suite.skipped();
            i = i + 1;
        }
        TestList {
            test_count,
            rust_build_meta,
            rust_suites: suites,
            updated_dylib_path,
            platform,
            skip_count,
        }
    }

    /// A list without binaries.
    pub fn empty(platform: HostPlatform) -> (list: TestList)
        ensures
            list@.paths == Seq::<Seq<char>>::empty(),
            list@.suites == Seq::<RustTestSuiteView>::empty(),
            list@.updated_dylib_path == Seq::<char>::empty(),
            list@.platform == platform,
            list@.rust_build_meta == (RustBuildMetaView {
                target_directory: Seq::<char>::empty(),
                base_output_directories: Seq::<Seq<char>>::empty(),
                linked_paths: Seq::<Seq<char>>::empty(),
            }),
            list.suite_map() == Map::<Seq<char>, RustTestSuite>::empty(),
            list.suites_agree(),
    {
        let suites: NameMap<RustTestSuite> = NameMap::new();
        assert(suite_views(suites.values()) =~= Seq::<RustTestSuiteView>::empty());
        TestList::assemble(suites, RustBuildMeta::new(String::new()), String::new(), platform)
    }

    /// The number of tests in all binaries.
    pub fn test_count(&self) -> (n: usize)
        ensures
            n == self.test_count_spec(),
    {
        proof {
            use_type_invariant(self);
        }
        self.test_count
    }

    /// The metadata of the build, with paths as they are now.
    pub fn rust_build_meta(&self) -> (meta: &RustBuildMeta)
        ensures
            meta@ == self@.rust_build_meta,
    {
        &self.rust_build_meta
    }

    /// The number of tests that do not match the filter.
    pub fn skip_count(&self) -> (n: usize)
        ensures
            n == self.skip_count_spec(),
            n <= self.test_count_spec(),
    {
        proof {
            use_type_invariant(self);
            self.lemma_counts();
        }
        self.skip_count
    }

    /// The number of tests that match the filter. Together with the tests
    /// that do not, they are the tests.
    pub fn run_count(&self) -> (n: usize)
        ensures
            n + self.skip_count_spec() == self.test_count_spec(),
    {
        proof {
            use_type_invariant(self);
            self.lemma_counts();
        }
        self.test_count - self.skip_count
    }

    /// The number of binaries.
    pub fn binary_count(&self) -> (n: usize)
        ensures
            n == self@.paths.len(),
            n == self@.suites.len(),
            self.suites_agree(),
    {
        let n = self.rust_suites.len();
        proof {
            self.lemma_agree();
        }
        n
    }

    /// The suite of the binary at `test_bin`, if the list has one.
    pub fn get(&self, test_bin: &str) -> (r: Option<&RustTestSuite>)
        ensures
            match r {
                Some(suite) => self.suite_map().contains_key(test_bin@) && *suite
                    == self.suite_map()[test_bin@],
                None => !self.suite_map().contains_key(test_bin@),
            },
    {
        self.rust_suites.get(test_bin)
    }

    /// The library search path that tests are run with.
    pub fn updated_dylib_path(&self) -> (path: &str)
        ensures
            path@ == self@.updated_dylib_path,
    {
        self.updated_dylib_path.as_str()
    }

    /// The kind of platform that the tests run on.
    pub fn platform(&self) -> (platform: HostPlatform)
        ensures
            platform == self@.platform,
    {
        self.platform
    }

    /// The binaries in the order of their paths, each with its suite.
    pub fn iter(&self) -> (out: Vec<(&str, &RustTestSuite)>)
        ensures
            out@.len() == self@.paths.len(),
            forall|i: int|
                0 <= i < out@.len() ==> (#[trigger] out@[i]).0@ == self@.paths[i] && out@[i].1@
                    == self@.suites[i],
            strictly_sorted(self@.paths),
    {
        let mut out: Vec<(&str, &RustTestSuite)> = Vec::new();
        let n = self.rust_suites.len();
        let mut i: usize = 0;
        while i < n
            invariant
                i <= n,
                n == self@.paths.len(),
                n == self@.suites.len(),
                n == self.rust_suites.keys().len(),
                out@.len() == i,
                forall|j: int|
                    0 <= j < i ==> (#[trigger] out@[j]).0@ == self@.paths[j] && out@[j].1@
                        == self@.suites[j],
            decreases n - i,
        {
            let path = self.rust_suites.key_at(i).as_str();
            let suite = self.rust_suites.value_at(i);
            assert(suite@ == self@.suites[i as int]);
            assert(path@ == self@.paths[i as int]);
            out.push((path, suite));
            i = i + 1;
        }
        out
    }

    /// All tests: binary by binary in the order of their paths, and in each
    /// binary in the order of their names.
    pub fn iter_tests(&self) -> (out: Vec<TestInstance<'_>>)
        ensures
            instance_views(out@) == all_instances(self@.paths, self@.suites, self@.paths.len()),
            out@.len() == self.test_count_spec(),
    {
        proof {
            self.rust_suites.lemma_lengths();
            lemma_all_instances_len(self@.paths, self@.suites, self@.paths.len());
        }
        instances_of(&self.rust_suites)
    }

    /// With sorted paths, the suites by path are the suites of the view.
    proof fn lemma_agree(&self)
        requires
            strictly_sorted(self.rust_suites.keys()),
        ensures
            self.suites_agree(),
    {
        self.rust_suites.lemma_lengths();
        assert forall|k: int| 0 <= k < self@.paths.len() implies self.suite_map()[#[trigger] self@.paths[k]]@
            == self@.suites[k] by {
            self.rust_suites.lemma_map_at(k);
        }
    }

    proof fn lemma_counts(&self)
        ensures
            self.skip_count_spec() <= self.test_count_spec(),
    {
        let suites = self@.suites;
        assert forall|i: int| 0 <= i < suites.len() implies (#[trigger] suites[i]).cases.len()
            == suites[i].names.len() by {
            self.rust_suites.values()[i].testcases.lemma_lengths();
        }
        lemma_total_skipped_bound(suites, suites.len());
    }
}

} // verus!
