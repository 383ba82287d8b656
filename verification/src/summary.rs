//! The list of tests as a summary for other programs: what is written out
//! in structured form. Suites stand under the identifier of their binary.

use crate::build_meta::RustBuildMeta;
use crate::metadata::BuildPlatform;
use crate::metadata::RustTestCaseSummary;
use crate::name_map::strictly_sorted;
use crate::name_map::NameMap;
use crate::suite::RustTestSuite;
use crate::suite::RustTestSuiteView;
use crate::test_list::TestList;
use vstd::prelude::*;

verus! {

/// A test binary in a summary.
#[derive(Debug, PartialEq, Eq)]
pub struct RustTestBinarySummary {
    /// An identifier of the binary, unique within the build.
    pub binary_id: String,
    /// The name of the binary within its package.
    pub binary_name: String,
    /// The identifier of the package that the binary belongs to.
    pub package_id: String,
    /// The path of the binary.
    pub binary_path: String,
    /// The platform that the binary counts as built for: the host for a
    /// procedural macro, the target for all else.
    pub build_platform: BuildPlatform,
}

/// The suite of one binary in a summary.
#[derive(Debug, PartialEq, Eq)]
pub struct RustTestSuiteSummary {
    /// The name of the package that the binary belongs to.
    pub package_name: String,
    /// The binary.
    pub binary: RustTestBinarySummary,
    /// The directory that the tests of the binary are run in.
    pub cwd: String,
    /// The tests by name, each with what is known of it.
    pub testcases: NameMap<RustTestCaseSummary>,
}

/// The suite of one binary in a summary, as plain values.
pub struct RustTestSuiteSummaryView {
    pub package_name: Seq<char>,
    pub binary_id: Seq<char>,
    pub binary_name: Seq<char>,
    pub package_id: Seq<char>,
    pub binary_path: Seq<char>,
    pub build_platform: BuildPlatform,
    pub cwd: Seq<char>,
    /// The names of the tests, in order.
    pub names: Seq<Seq<char>>,
    /// What is known of each test, in the order of the names.
    pub cases: Seq<RustTestCaseSummary>,
}

impl View for RustTestSuiteSummary {
    type V = RustTestSuiteSummaryView;

    open spec fn view(&self) -> RustTestSuiteSummaryView {
        RustTestSuiteSummaryView {
            package_name: self.package_name@,
            binary_id: self.binary.binary_id@,
            binary_name: self.binary.binary_name@,
            package_id: self.binary.package_id@,
            binary_path: self.binary.binary_path@,
            build_platform: self.binary.build_platform,
            cwd: self.cwd@,
            names: self.testcases.keys(),
            cases: self.testcases.values(),
        }
    }
}

/// The summary of a list of tests.
#[derive(Debug, PartialEq, Eq)]
pub struct TestListSummary {
    /// The metadata of the build.
    pub rust_build_meta: RustBuildMeta,
    /// The number of tests in all binaries.
    pub test_count: usize,
    /// The suites by the identifier of their binary.
    pub rust_suites: NameMap<RustTestSuiteSummary>,
}

/// The summary of the suite of the binary at `path`. It keeps the names of
/// the tests and what is known of each.
pub open spec fn suite_summary(path: Seq<char>, suite: RustTestSuiteView)
    -> RustTestSuiteSummaryView {
    RustTestSuiteSummaryView {
        package_name: suite.package.name,
        binary_id: suite.binary_id,
        binary_name: suite.binary_name,
        package_id: suite.package.id,
        binary_path: path,
        build_platform: if suite.package.is_proc_macro {
            BuildPlatform::Host
        } else {
            BuildPlatform::Target
        },
        cwd: suite.cwd,
        names: suite.names,
        cases: suite.cases,
    }
}

/// The summaries of the first `n` suites by the identifier of their
/// binary. Of two binaries with one identifier the later one stays.
pub open spec fn suite_summaries(
    paths: Seq<Seq<char>>,
    suites: Seq<RustTestSuiteView>,
    n: nat,
) -> Map<Seq<char>, RustTestSuiteSummaryView>
    decreases n,
{
    if n == 0 {
        Map::empty()
    } else {
        suite_summaries(paths, suites, (n - 1) as nat).insert(
            suites[n - 1].binary_id,
            suite_summary(paths[n - 1], suites[n - 1]),
        )
    }
}

/// Whether no two of the first `n` suites have the same binary identifier.
pub open spec fn distinct_ids(suites: Seq<RustTestSuiteView>, n: nat) -> bool {
    forall|i: int, j: int|
        0 <= i < j < n ==> (#[trigger] suites[i]).binary_id != (#[trigger] suites[j]).binary_id
}

/// Every suite is summarised under the identifier of its binary, and only
/// suites are.
pub proof fn lemma_summary_keys(
    paths: Seq<Seq<char>>,
    suites: Seq<RustTestSuiteView>,
    n: nat,
    id: Seq<char>,
)
    requires
        n <= suites.len(),
    ensures
        suite_summaries(paths, suites, n).contains_key(id) <==> exists|i: int|
            0 <= i < n && (#[trigger] suites[i]).binary_id == id,
    decreases n,
{
    if n > 0 {
        lemma_summary_keys(paths, suites, (n - 1) as nat, id);
        if suite_summaries(paths, suites, n).contains_key(id) {
            if suites[n - 1].binary_id == id {
            } else {
                let i = choose|i: int| 0 <= i < n - 1 && (#[trigger] suites[i]).binary_id == id;
                assert(0 <= i < n && suites[i].binary_id == id);
            }
        }
        if exists|i: int| 0 <= i < n && (#[trigger] suites[i]).binary_id == id {
            let i = choose|i: int| 0 <= i < n && (#[trigger] suites[i]).binary_id == id;
            if i < n - 1 {
                assert(0 <= i < n - 1 && suites[i].binary_id == id);
            }
        }
    }
}

/// Where no two binaries have the same identifier, the summary holds one
/// suite for each binary, and the summary of a suite read back under the
/// identifier of its binary names the same tests and says of each what the
/// suite says.
pub proof fn lemma_summary_keeps_suites(
    paths: Seq<Seq<char>>,
    suites: Seq<RustTestSuiteView>,
    n: nat,
)
    requires
        n <= suites.len(),
        distinct_ids(suites, n),
    ensures
        suite_summaries(paths, suites, n).dom().finite(),
        suite_summaries(paths, suites, n).dom().len() == n,
        forall|i: int|
            0 <= i < n ==> {
                let read = suite_summaries(paths, suites, n)[(#[trigger] suites[i]).binary_id];
                &&& suite_summaries(paths, suites, n).contains_key(suites[i].binary_id)
                &&& read == suite_summary(paths[i], suites[i])
                &&& read.names == suites[i].names
                &&& read.cases == suites[i].cases
            },
    decreases n,
{
    if n > 0 {
        let before = (n - 1) as nat;
        lemma_summary_keeps_suites(paths, suites, before);
        lemma_summary_keys(paths, suites, before, suites[n - 1].binary_id);
        assert(!suite_summaries(paths, suites, before).contains_key(suites[n - 1].binary_id)) by {
            if exists|i: int| 0 <= i < before && (#[trigger] suites[i]).binary_id == suites[n
                - 1].binary_id {
                let i = choose|i: int|
                    0 <= i < before && (#[trigger] suites[i]).binary_id == suites[n
                        - 1].binary_id;
                assert(suites[i].binary_id != suites[n - 1].binary_id);
            }
        }
        assert forall|i: int| 0 <= i < n implies {
            let read = suite_summaries(paths, suites, n)[(#[trigger] suites[i]).binary_id];
            &&& suite_summaries(paths, suites, n).contains_key(suites[i].binary_id)
            &&& read == suite_summary(paths[i], suites[i])
        } by {
            if i < n - 1 {
                assert(suites[i].binary_id != suites[n - 1].binary_id);
            }
        }
    }
}

/// Summaries as plain values.
pub open spec fn summary_views(m: Map<Seq<char>, RustTestSuiteSummary>) -> Map<
    Seq<char>,
    RustTestSuiteSummaryView,
> {
    m.map_values(|s: RustTestSuiteSummary| s@)
}

impl RustTestSuite {
    /// The summary of the suite of the binary at `path`.
    pub fn to_summary(&self, path: &str) -> (summary: RustTestSuiteSummary)
        ensures
            summary@ == suite_summary(path@, self@),
    {
        let platform = if self.package.is_proc_macro {
            BuildPlatform::Host
        } else {
            BuildPlatform::Target
        };
        RustTestSuiteSummary {
            package_name: self.package.name.clone(),
            binary: RustTestBinarySummary {
                binary_name: self.binary_name.clone(),
                package_id: self.package.id.clone(),
                binary_path: path.to_owned(),
                binary_id: self.binary_id.clone(),
                build_platform: platform,
            },
            cwd: self.cwd.clone(),
            testcases: self.testcases.clone(),
        }
    }
}

impl TestList {
    /// The summary of the list: its count of tests, the metadata of the
    /// build, and the summary of every suite under the identifier of its
    /// binary.
    pub fn to_summary(&self) -> (summary: TestListSummary)
        ensures
            summary.test_count == self.test_count_spec(),
            summary.rust_build_meta@ == self@.rust_build_meta,
            summary_views(summary.rust_suites.as_map()) == suite_summaries(
                self@.paths,
                self@.suites,
                self@.paths.len(),
            ),
            strictly_sorted(summary.rust_suites.keys()),
    {
        let entries = self.iter();
        let mut rust_suites: NameMap<RustTestSuiteSummary> = NameMap::new();
        let mut i: usize = 0;
        assert(summary_views(rust_suites.as_map()) =~= suite_summaries(
            self@.paths,
            self@.suites,
            0,
        ));
        while i < entries.len()
            invariant
                i <= entries.len(),
                entries@.len() == self@.paths.len(),
                forall|k: int|
                    0 <= k < entries@.len() ==> (#[trigger] entries@[k]).0@ == self@.paths[k]
                        && entries@[k].1@ == self@.suites[k],
                summary_views(rust_suites.as_map()) == suite_summaries(
                    self@.paths,
                    self@.suites,
                    i as nat,
                ),
            decreases entries.len() - i,
        {
            let (path, suite) = entries[i];
            assert(path@ == self@.paths[i as int] && suite@ == self@.suites[i as int]);
            let ghost before = rust_suites.as_map();
            let summary = suite.to_summary(path);
            let ghost added = summary;
            rust_suites.insert(suite.binary_id.clone(), summary);
            assert(summary_views(rust_suites.as_map()) =~= summary_views(before).insert(
                suite.binary_id@,
                added@,
            ));
            i = i + 1;
        }
        let _ = rust_suites.len();
        TestListSummary {
            rust_build_meta: self.rust_build_meta().clone(),
            test_count: self.test_count(),
            rust_suites,
        }
    }
}

} // verus!
