//! The tests of one binary, each with what the listings and the filter say
//! of it.
//!
//! A binary is listed twice: once for all its tests, once for the ignored
//! ones only. The names of the first listing are entered as not ignored,
//! then those of the second as ignored, so that a name in both ends up
//! ignored. Each listing is shown to a filter of its own.

use crate::artifact::RustTestArtifact;
use crate::artifact::RustTestArtifactView;
use crate::errors::ParseTestListError;
use crate::filter::slot_after;
use crate::filter::verdict_at;
use crate::filter::FilterRules;
use crate::filter::RunIgnored;
use crate::filter::TestFilterBuilder;
use crate::listing::parse;
use crate::listing::parse_result;
use crate::metadata::BuildPlatform;
use crate::metadata::FilterMatch;
use crate::metadata::MismatchReason;
use crate::metadata::RustTestCaseSummary;
use crate::name_map::strictly_sorted;
use crate::name_map::NameMap;
use crate::package::PackageInfo;
use crate::package::PackageInfoView;
use crate::text::views;
use vstd::prelude::*;

verus! {

/// The tests of one binary.
#[derive(Debug, PartialEq, Eq)]
pub struct RustTestSuite {
    /// An identifier of the binary, unique within the build.
    pub binary_id: String,
    /// The package that the binary belongs to.
    pub package: PackageInfo,
    /// The name of the binary within its package.
    pub binary_name: String,
    /// The directory that the tests of the binary are run in.
    pub cwd: String,
    /// The platform that the binary was built for.
    pub build_platform: BuildPlatform,
    /// The tests by name, each with what is known of it.
    pub testcases: NameMap<RustTestCaseSummary>,
}

/// A suite as plain values.
pub struct RustTestSuiteView {
    pub binary_id: Seq<char>,
    pub package: PackageInfoView,
    pub binary_name: Seq<char>,
    pub cwd: Seq<char>,
    pub build_platform: BuildPlatform,
    /// The names of the tests, in order.
    pub names: Seq<Seq<char>>,
    /// What is known of each test, in the order of the names.
    pub cases: Seq<RustTestCaseSummary>,
}

impl View for RustTestSuite {
    type V = RustTestSuiteView;

    open spec fn view(&self) -> RustTestSuiteView {
        RustTestSuiteView {
            binary_id: self.binary_id@,
            package: self.package@,
            binary_name: self.binary_name@,
            cwd: self.cwd@,
            build_platform: self.build_platform,
            names: self.testcases.keys(),
            cases: self.testcases.values(),
        }
    }
}

impl Clone for RustTestSuite {
    fn clone(&self) -> (r: Self)
        ensures
            r@ == self@,
    {
        RustTestSuite {
            binary_id: self.binary_id.clone(),
            package: self.package.clone(),
            binary_name: self.binary_name.clone(),
            cwd: self.cwd.clone(),
            build_platform: self.build_platform,
            testcases: self.testcases.clone(),
        }
    }
}

/// The number of tests in `cases` that do not match the filter.
pub open spec fn count_skipped(cases: Seq<RustTestCaseSummary>) -> nat
    decreases cases.len(),
{
    if cases.len() == 0 {
        0
    } else {
        count_skipped(cases.drop_last()) + if cases.last().filter_match == FilterMatch::Matches {
            0nat
        } else {
            1nat
        }
    }
}

/// No more tests are skipped than there are.
pub proof fn lemma_count_skipped_bound(cases: Seq<RustTestCaseSummary>)
    ensures
        count_skipped(cases) <= cases.len(),
    decreases cases.len(),
{
    if cases.len() > 0 {
        lemma_count_skipped_bound(cases.drop_last());
    }
}

/// What one entry of a listing says of `names[i]`: whether the listing was
/// that of the ignored tests, and the verdict of the listing's filter.
pub open spec fn case_of(rules: FilterRules, names: Seq<Seq<char>>, i: int, ignored: bool)
    -> RustTestCaseSummary {
    RustTestCaseSummary { ignored, filter_match: verdict_at(rules, names, i, ignored) }
}

/// `m` after the first `n` names of a listing were entered in order, each
/// in place of what stood under its name before.
pub open spec fn with_pass(
    m: Map<Seq<char>, RustTestCaseSummary>,
    rules: FilterRules,
    names: Seq<Seq<char>>,
    ignored: bool,
    n: nat,
) -> Map<Seq<char>, RustTestCaseSummary>
    decreases n,
{
    if n == 0 {
        m
    } else {
        with_pass(m, rules, names, ignored, (n - 1) as nat).insert(
            names[n - 1],
            case_of(rules, names, n - 1, ignored),
        )
    }
}

/// The tests of a binary whose listing of all tests names `non_ignored` and
/// whose listing of ignored tests names `ignored`.
pub open spec fn classified(rules: FilterRules, non_ignored: Seq<Seq<char>>, ignored: Seq<Seq<char>>)
    -> Map<Seq<char>, RustTestCaseSummary> {
    with_pass(
        with_pass(Map::empty(), rules, non_ignored, false, non_ignored.len()),
        rules,
        ignored,
        true,
        ignored.len(),
    )
}

/// The names up to `n` are those before `n` and `names[n - 1]`.
proof fn lemma_take_contains(names: Seq<Seq<char>>, n: int, name: Seq<char>)
    requires
        0 < n <= names.len(),
    ensures
        names.take(n).contains(name) <==> (names.take(n - 1).contains(name) || name == names[n
            - 1]),
{
    let upto = names.take(n);
    let init = names.take(n - 1);
    if upto.contains(name) {
        let i = upto.index_of(name);
        if i < n - 1 {
            assert(init[i] == name);
        }
    }
    if init.contains(name) {
        let i = init.index_of(name);
        assert(upto[i] == name);
    }
    assert(upto[n - 1] == names[n - 1]);
}

/// What entering a listing does to a map: the names entered are added to
/// those it held, each recorded as the listing is, and every other name
/// stands for what it stood for.
pub proof fn lemma_with_pass(
    m: Map<Seq<char>, RustTestCaseSummary>,
    rules: FilterRules,
    names: Seq<Seq<char>>,
    ignored: bool,
    n: nat,
    name: Seq<char>,
)
    requires
        n <= names.len(),
    ensures
        with_pass(m, rules, names, ignored, n).contains_key(name) <==> (m.contains_key(name)
            || names.take(n as int).contains(name)),
        !names.take(n as int).contains(name) ==> with_pass(m, rules, names, ignored, n)[name]
            == m[name],
        names.take(n as int).contains(name) ==> with_pass(m, rules, names, ignored, n)[name]
            == case_of(rules, names, last_index(names.take(n as int), name), ignored),
    decreases n,
{
    if n > 0 {
        lemma_with_pass(m, rules, names, ignored, (n - 1) as nat, name);
        lemma_take_contains(names, n as int, name);
        let upto = names.take(n as int);
        assert(upto.drop_last() == names.take(n - 1));
        assert(upto.last() == names[n - 1]);
    } else {
        assert(names.take(0) =~= Seq::<Seq<char>>::empty());
    }
}

/// A test that the listing of ignored tests names is recorded as ignored,
/// whether or not the listing of all tests names it too.
pub proof fn lemma_ignored_wins(
    rules: FilterRules,
    non_ignored: Seq<Seq<char>>,
    ignored: Seq<Seq<char>>,
    name: Seq<char>,
)
    requires
        ignored.contains(name),
    ensures
        classified(rules, non_ignored, ignored).contains_key(name),
        classified(rules, non_ignored, ignored)[name].ignored,
{
    let first = with_pass(Map::empty(), rules, non_ignored, false, non_ignored.len());
    lemma_with_pass(first, rules, ignored, true, ignored.len(), name);
    assert(ignored.take(ignored.len() as int) == ignored);
}

/// The tests recorded are those that either listing names. One that only
/// the listing of all tests names is recorded as not ignored.
pub proof fn lemma_classified_names(
    rules: FilterRules,
    non_ignored: Seq<Seq<char>>,
    ignored: Seq<Seq<char>>,
    name: Seq<char>,
)
    ensures
        classified(rules, non_ignored, ignored).contains_key(name) <==> (non_ignored.contains(name)
            || ignored.contains(name)),
        non_ignored.contains(name) && !ignored.contains(name) ==> !classified(
            rules,
            non_ignored,
            ignored,
        )[name].ignored,
{
    let first = with_pass(Map::empty(), rules, non_ignored, false, non_ignored.len());
    lemma_with_pass(Map::empty(), rules, non_ignored, false, non_ignored.len(), name);
    lemma_with_pass(first, rules, ignored, true, ignored.len(), name);
    assert(ignored.take(ignored.len() as int) == ignored);
    assert(non_ignored.take(non_ignored.len() as int) == non_ignored);
}

/// Unless ignored tests are asked for, a test recorded as ignored is
/// recorded as not matching, for being ignored.
pub proof fn lemma_ignored_is_mismatch(
    rules: FilterRules,
    non_ignored: Seq<Seq<char>>,
    ignored: Seq<Seq<char>>,
    name: Seq<char>,
)
    requires
        rules.run_ignored == RunIgnored::Default,
        classified(rules, non_ignored, ignored).contains_key(name),
        classified(rules, non_ignored, ignored)[name].ignored,
    ensures
        classified(rules, non_ignored, ignored)[name].filter_match == (FilterMatch::Mismatch {
            reason: MismatchReason::Ignored,
        }),
{
    let first = with_pass(Map::empty(), rules, non_ignored, false, non_ignored.len());
    lemma_with_pass(Map::empty(), rules, non_ignored, false, non_ignored.len(), name);
    lemma_with_pass(first, rules, ignored, true, ignored.len(), name);
    assert(ignored.take(ignored.len() as int) == ignored);
    assert(non_ignored.take(non_ignored.len() as int) == non_ignored);
}

/// The last index at which `name` stands in `names`.
pub open spec fn last_index(names: Seq<Seq<char>>, name: Seq<char>) -> int
    decreases names.len(),
{
    if names.len() == 0 {
        -1
    } else if names.last() == name {
        names.len() - 1
    } else {
        last_index(names.drop_last(), name)
    }
}

/// Where `name` stands in `names`, it stands at its last index and nowhere
/// after it.
pub proof fn lemma_last_index(names: Seq<Seq<char>>, name: Seq<char>)
    requires
        names.contains(name),
    ensures
        0 <= last_index(names, name) < names.len(),
        names[last_index(names, name)] == name,
        forall|j: int| last_index(names, name) < j < names.len() ==> names[j] != name,
    decreases names.len(),
{
    if names.last() != name {
        let init = names.drop_last();
        let i = names.index_of(name);
        assert(init[i] == name);
        lemma_last_index(init, name);
        assert forall|j: int| last_index(names, name) < j < names.len() implies names[j]
            != name by {
            if j < init.len() {
                assert(init[j] == names[j]);
            }
        }
    }
}

/// The first malformed line of the two listings of a binary, with the
/// output that it stands in: that of the listing of all tests comes first.
pub open spec fn listing_error(non_ignored: Seq<char>, ignored: Seq<char>) -> Option<
    (Seq<char>, Seq<char>),
> {
    match parse_result(non_ignored) {
        Err(line) => Some((line, non_ignored)),
        Ok(_) => match parse_result(ignored) {
            Err(line) => Some((line, ignored)),
            Ok(_) => None,
        },
    }
}

/// Whether `suite` is the suite of `artifact` for the two listings: it has
/// what the artifact has, and its tests are those that the listings name,
/// each recorded as its listing and the filter say.
pub open spec fn suite_matches(
    suite: RustTestSuite,
    artifact: RustTestArtifactView,
    rules: FilterRules,
    non_ignored: Seq<char>,
    ignored: Seq<char>,
) -> bool {
    &&& parse_result(non_ignored) matches Ok(first)
    &&& parse_result(ignored) matches Ok(second)
    &&& suite@.binary_id == artifact.binary_id
    &&& suite@.package == artifact.package
    &&& suite@.binary_name == artifact.binary_name
    &&& suite@.cwd == artifact.cwd
    &&& suite@.build_platform == artifact.build_platform
    &&& suite.testcases.as_map() == classified(rules, first, second)
    &&& strictly_sorted(suite@.names)
}

/// Enters the names of one listing into `tests`, each with the verdict of a
/// fresh filter that is shown the names in order.
fn add_pass(
    tests: &mut NameMap<RustTestCaseSummary>,
    filter: &TestFilterBuilder,
    names: &Vec<String>,
    ignored: bool,
)
    ensures
        final(tests).as_map() == with_pass(
            old(tests).as_map(),
            filter@,
            views(names@),
            ignored,
            names@.len(),
        ),
{
    let ghost all = views(names@);
    let ghost start = tests.as_map();
    let mut session = filter.build();
    let mut i: usize = 0;
    assert(all.take(0) == Seq::<Seq<char>>::empty());
    while i < names.len()
        invariant
            i <= names.len(),
            all == views(names@),
            session.rules() == filter@,
            session.slot() == slot_after(filter@, all.take(i as int), ignored),
            tests.as_map() == with_pass(start, filter@, all, ignored, i as nat),
        decreases names.len() - i,
    {
        let name = names[i].clone();
        assert(name@ == all[i as int]);
        let filter_match = session.filter_match(name.as_str(), ignored);
        proof {
            assert(all.take(i + 1).drop_last() == all.take(i as int));
            assert(all.take(i + 1).last() == all[i as int]);
        }
        tests.insert(name, RustTestCaseSummary { ignored, filter_match });
        i = i + 1;
    }
}

impl RustTestSuite {
    /// The number of tests of the suite that do not match the filter.
    pub fn skipped(&self) -> (n: usize)
        ensures
            n == count_skipped(self@.cases),
            n <= self@.names.len(),
    {
        let m = self.testcases.len();
        let ghost cases = self.testcases.values();
        let mut n: usize = 0;
        let mut j: usize = 0;
        assert(cases.take(0) == Seq::<RustTestCaseSummary>::empty());
        while j < m
            invariant
                j <= m,
                m == self.testcases.keys().len(),
                cases == self.testcases.values(),
                cases.len() == m,
                n == count_skipped(cases.take(j as int)),
                n <= j,
            decreases m - j,
        {
            proof {
                assert(cases.take(j + 1).drop_last() == cases.take(j as int));
                assert(cases.take(j + 1).last() == cases[j as int]);
            }
            if !self.testcases.value_at(j).filter_match.is_match() {
                n = n + 1;
            }
            j = j + 1;
        }
        assert(cases.take(m as int) == cases);
        n
    }

    /// The suite of `test_binary` from its two listings: `non_ignored` is
    /// the output of the listing of all tests, `ignored` that of the
    /// listing of ignored tests. Comes with the path of the binary. Fails
    /// on the first malformed line, of the first listing if it has one.
    pub fn process_output(
        test_binary: RustTestArtifact,
        filter: &TestFilterBuilder,
        non_ignored: &str,
        ignored: &str,
    ) -> (r: Result<(String, RustTestSuite), ParseTestListError>)
        ensures
            match r {
                Ok((path, suite)) => {
                    &&& path@ == test_binary.binary_path@
                    &&& suite_matches(suite, test_binary@, filter@, non_ignored@, ignored@)
                },
                Err(ParseTestListError::ParseLine { line, full_output }) => listing_error(
                    non_ignored@,
                    ignored@,
                ) == Some((line@, full_output@)),
                Err(_) => false,
            },
    {
        let mut tests: NameMap<RustTestCaseSummary> = NameMap::new();
        let first = match parse(non_ignored) {
            Ok(names) => names,
            Err(e) => {
                return Err(e);
            },
        };
        add_pass(&mut tests, filter, &first, false);
        let second = match parse(ignored) {
            Ok(names) => names,
            Err(e) => {
                return Err(e);
            },
        };
        add_pass(&mut tests, filter, &second, true);
        let _ = tests.len();
        let RustTestArtifact { binary_id, package, binary_path, binary_name, cwd, build_platform } =
            test_binary;
        Ok(
            (
                binary_path,
                RustTestSuite {
                    binary_id,
                    package,
                    binary_name,
                    cwd,
                    build_platform,
                    testcases: tests,
                },
            ),
        )
    }
}

} // verus!
